//! The conditional-apply protocol: version bumps, conflicts, deletes,
//! reads, and the cancellation interpreter.

use gym_log::engine::{ApplyOutcome, CancelReason, Classifier, VersionSnapshot};
use gym_log::engine::interpret_cancellation;
use gym_log::handlers::{user_measurement, user_workout, user_workout_exercise, user_workout_order};
use gym_log::model::{
    Exercise, ExerciseSet, MeasurementSet, VersionDeleteReq, VersionModifyReq, Workout,
};
use gym_log::query::{change_query_check, get_changed, read_snapshot, snapshot_version_check};
use gym_log::store::UserStore;
use gym_log::validate::{MaxLenVec, Uuid, ValidationError};

const W1: &str = "123e4567-e89b-42d3-a456-426614174000";
const E1: &str = "223e4567-e89b-42d3-a456-426614174000";
const E2: &str = "323e4567-e89b-42d3-a456-426614174000";

fn measurement(notes: &str) -> MeasurementSet {
    MeasurementSet {
        date: String::new(),
        notes: String::from(notes),
        measurements: vec![(String::from("weight"), String::from("82.5"))],
        modified_version: 0,
    }
}

fn workout(notes: &str) -> Workout {
    Workout {
        workout_id: String::new(),
        start_time: Some(String::from("2024-01-02T03:04:05Z")),
        finish_time: None,
        notes: String::from(notes),
        modified_version: 0,
    }
}

fn exercise(order: u32) -> Exercise {
    Exercise {
        workout_exercise_id: String::new(),
        order,
        exercise_type: String::from("press"),
        notes: String::new(),
        sets: vec![ExerciseSet {
            set_id: String::from(E2),
            repetitions: Some(8),
            resistance: Some(40),
            speed: None,
            distance: None,
            duration: None,
        }],
        modified_version: 0,
    }
}

fn put_measurement(store: &mut UserStore, version: u64, date: &str, notes: &str) -> ApplyOutcome {
    user_measurement::put(
        store,
        1000,
        date,
        &VersionModifyReq { version, item: measurement(notes) },
    )
    .unwrap()
}

#[test]
fn successful_mutations_return_increasing_versions() {
    let mut store = UserStore::new();
    let out1 = put_measurement(&mut store, 0, "2024-01-01", "a");
    let out2 = user_workout::put(
        &mut store,
        1000,
        W1,
        &VersionModifyReq { version: 1, item: workout("w") },
    )
    .unwrap();
    let v1 = match out1 {
        ApplyOutcome::Success { new_version } => new_version,
        _ => panic!("first mutation should commit"),
    };
    let v2 = match out2 {
        ApplyOutcome::Success { new_version } => new_version,
        _ => panic!("second mutation should commit"),
    };
    assert_eq!(v1, 1);
    assert_eq!(v2, 2);
    assert!(v1 < v2);
}

#[test]
fn concurrent_writers_with_same_version_exclude_each_other() {
    let mut store = UserStore::new();
    let first = put_measurement(&mut store, 0, "2024-01-01", "mine");
    assert!(matches!(first, ApplyOutcome::Success { new_version: 1 }));
    let second = put_measurement(&mut store, 0, "2024-01-02", "theirs");
    assert!(matches!(second, ApplyOutcome::Conflict));
}

#[test]
fn stale_client_version_conflicts() {
    let mut store = UserStore::new();
    put_measurement(&mut store, 0, "2024-01-01", "a");
    put_measurement(&mut store, 1, "2024-01-02", "b");
    let out = put_measurement(&mut store, 1, "2024-01-03", "c");
    assert!(matches!(out, ApplyOutcome::Conflict));
}

#[test]
fn delete_of_missing_entity_is_not_found() {
    let mut store = UserStore::new();
    let out = user_measurement::delete(
        &mut store,
        1000,
        "2024-01-01",
        &VersionDeleteReq { version: 0 },
    );
    assert!(matches!(out, ApplyOutcome::NotFound));
}

#[test]
fn delete_of_tombstoned_entity_is_not_found_again() {
    let mut store = UserStore::new();
    put_measurement(&mut store, 0, "2024-01-01", "a");
    let gone = user_measurement::delete(
        &mut store,
        1000,
        "2024-01-01",
        &VersionDeleteReq { version: 1 },
    );
    assert!(matches!(gone, ApplyOutcome::Success { new_version: 2 }));
    let again = user_measurement::delete(
        &mut store,
        1000,
        "2024-01-01",
        &VersionDeleteReq { version: 2 },
    );
    assert!(matches!(again, ApplyOutcome::NotFound));
}

#[test]
fn delete_with_malformed_id_is_not_found() {
    let mut store = UserStore::new();
    let out = user_workout::delete(&mut store, 1000, "not-a-uuid", &VersionDeleteReq {
        version: 0,
    });
    assert!(matches!(out, ApplyOutcome::NotFound));
}

#[test]
fn change_query_at_current_version_is_empty() {
    let mut store = UserStore::new();
    put_measurement(&mut store, 0, "2024-01-01", "a");
    put_measurement(&mut store, 1, "2024-01-02", "b");
    let user = get_changed(&store, 2);
    assert_eq!(user.version, 2);
    assert!(user.measurement_sets.is_empty());
    assert!(user.workouts.is_empty());
    assert!(user.exercises.is_empty());
    assert!(user.deleted_measurement_sets.is_empty());
    assert!(user.deleted_workouts.is_empty());
    assert!(user.deleted_exercises.is_empty());
}

#[test]
fn change_query_returns_later_writes_and_tombstones() {
    let mut store = UserStore::new();
    put_measurement(&mut store, 0, "2024-01-01", "a");
    put_measurement(&mut store, 1, "2024-01-02", "b");
    user_measurement::delete(&mut store, 1000, "2024-01-01", &VersionDeleteReq { version: 2 });
    let user = get_changed(&store, 1);
    assert_eq!(user.version, 3);
    assert_eq!(user.measurement_sets.len(), 1);
    assert_eq!(user.measurement_sets[0].date, "2024-01-02");
    assert_eq!(user.measurement_sets[0].modified_version, 2);
    assert_eq!(user.deleted_measurement_sets.len(), 1);
    assert_eq!(user.deleted_measurement_sets[0].id, "2024-01-01");
    assert_eq!(user.deleted_measurement_sets[0].modified_version, 3);
}

#[test]
fn snapshot_excludes_tombstones() {
    let mut store = UserStore::new();
    put_measurement(&mut store, 0, "2024-01-01", "kept");
    user_workout::put(&mut store, 1000, W1, &VersionModifyReq { version: 1, item: workout("w") })
        .unwrap();
    user_workout::delete(&mut store, 1000, W1, &VersionDeleteReq { version: 2 });
    let user = read_snapshot(&store);
    assert_eq!(user.version, 3);
    assert_eq!(user.measurement_sets.len(), 1);
    assert_eq!(user.measurement_sets[0].notes, "kept");
    assert!(user.workouts.is_empty());
    assert!(user.deleted_workouts.is_empty());
}

#[test]
fn read_checks_decide_retry() {
    assert!(snapshot_version_check(5, 5));
    assert!(!snapshot_version_check(5, 6));
    assert!(change_query_check(5, 6));
    assert!(!change_query_check(5, 1 << 32));
}

#[test]
fn exercise_put_requires_live_workout() {
    let mut store = UserStore::new();
    let out = user_workout_exercise::put(
        &mut store,
        1000,
        W1,
        E1,
        &VersionModifyReq { version: 0, item: exercise(0) },
    )
    .unwrap();
    assert!(matches!(out, ApplyOutcome::NotFound));
}

#[test]
fn exercise_put_and_delete_round_trip() {
    let mut store = UserStore::new();
    user_workout::put(&mut store, 1000, W1, &VersionModifyReq { version: 0, item: workout("w") })
        .unwrap();
    let put = user_workout_exercise::put(
        &mut store,
        1000,
        W1,
        E1,
        &VersionModifyReq { version: 1, item: exercise(0) },
    )
    .unwrap();
    assert!(matches!(put, ApplyOutcome::Success { new_version: 2 }));
    let del = user_workout_exercise::delete(
        &mut store,
        1000,
        W1,
        E1,
        &VersionDeleteReq { version: 2 },
    );
    assert!(matches!(del, ApplyOutcome::Success { new_version: 3 }));
    let again = user_workout_exercise::delete(
        &mut store,
        1000,
        W1,
        E1,
        &VersionDeleteReq { version: 3 },
    );
    assert!(matches!(again, ApplyOutcome::NotFound));
}

#[test]
fn order_update_renumbers_live_exercises() {
    let mut store = UserStore::new();
    user_workout::put(&mut store, 1000, W1, &VersionModifyReq { version: 0, item: workout("w") })
        .unwrap();
    user_workout_exercise::put(
        &mut store,
        1000,
        W1,
        E1,
        &VersionModifyReq { version: 1, item: exercise(0) },
    )
    .unwrap();
    let order = MaxLenVec(vec![Uuid(String::from(E1))]);
    let out = user_workout_order::put(
        &mut store,
        1000,
        W1,
        &VersionModifyReq { version: 2, item: order },
    )
    .unwrap();
    assert!(matches!(out, ApplyOutcome::Success { new_version: 3 }));
}

#[test]
fn order_update_names_missing_exercise() {
    let mut store = UserStore::new();
    user_workout::put(&mut store, 1000, W1, &VersionModifyReq { version: 0, item: workout("w") })
        .unwrap();
    let order = MaxLenVec(vec![Uuid(String::from(E1))]);
    let out = user_workout_order::put(
        &mut store,
        1000,
        W1,
        &VersionModifyReq { version: 1, item: order },
    )
    .unwrap();
    assert!(matches!(out, ApplyOutcome::InvalidReference { index: 0 }));
}

#[test]
fn validation_rejects_bad_inputs() {
    let mut store = UserStore::new();
    let bad_date = user_measurement::put(
        &mut store,
        1000,
        "2024-02-30",
        &VersionModifyReq { version: 0, item: measurement("x") },
    );
    assert!(matches!(bad_date, Err(ValidationError::InvalidDate)));

    let mut long = measurement("x");
    long.notes = "n".repeat(10_001);
    let too_long = user_measurement::put(
        &mut store,
        1000,
        "2024-01-01",
        &VersionModifyReq { version: 0, item: long },
    );
    assert!(matches!(too_long, Err(ValidationError::TooLong)));

    let bad_uuid = user_workout::put(
        &mut store,
        1000,
        "nope",
        &VersionModifyReq { version: 0, item: workout("w") },
    );
    assert!(matches!(bad_uuid, Err(ValidationError::InvalidUuid)));

    let mut bad_time = workout("w");
    bad_time.start_time = Some(String::from("yesterday"));
    let out = user_workout::put(&mut store, 1000, W1, &VersionModifyReq {
        version: 0,
        item: bad_time,
    });
    assert!(matches!(out, Err(ValidationError::InvalidDate)));

    let mut fat = exercise(0);
    fat.sets = (0..26)
        .map(|_| ExerciseSet {
            set_id: String::from(E2),
            repetitions: None,
            resistance: None,
            speed: None,
            distance: None,
            duration: None,
        })
        .collect();
    let too_many = user_workout_exercise::put(
        &mut store,
        1000,
        W1,
        E1,
        &VersionModifyReq { version: 0, item: fat },
    );
    assert!(matches!(too_many, Err(ValidationError::TooMany)));
}

#[test]
fn interpreter_reads_first_reason() {
    let mismatch = vec![CancelReason {
        check_failed: true,
        snapshot: Some(VersionSnapshot { version: Some(7), locked_until: None }),
    }];
    let out = interpret_cancellation(3, 1000, &mismatch, Classifier::Ignore);
    assert!(matches!(out, ApplyOutcome::Conflict));

    let locked = vec![CancelReason {
        check_failed: true,
        snapshot: Some(VersionSnapshot { version: Some(3), locked_until: Some(1040) }),
    }];
    let out = interpret_cancellation(3, 1000, &locked, Classifier::Ignore);
    assert!(matches!(out, ApplyOutcome::RetryLater { seconds: 40 }));

    let unexplained = vec![CancelReason { check_failed: false, snapshot: None }];
    let out = interpret_cancellation(3, 1000, &unexplained, Classifier::Ignore);
    assert!(matches!(out, ApplyOutcome::Backend));

    let step_failed = vec![
        CancelReason { check_failed: false, snapshot: None },
        CancelReason { check_failed: true, snapshot: None },
    ];
    let out = interpret_cancellation(3, 1000, &step_failed, Classifier::NotFoundOnFirst);
    assert!(matches!(out, ApplyOutcome::NotFound));
}

#[test]
fn mutation_refused_while_lease_active() {
    let mut store = UserStore::new();
    put_measurement(&mut store, 0, "2024-01-01", "a");
    gym_log::import::acquire_lock(&mut store, 1000).unwrap();
    let out = put_measurement(&mut store, 1, "2024-01-02", "b");
    assert!(matches!(out, ApplyOutcome::RetryLater { seconds: 60 }));
    let after = user_measurement::put(
        &mut store,
        1061,
        "2024-01-02",
        &VersionModifyReq { version: 1, item: measurement("b") },
    )
    .unwrap();
    assert!(matches!(after, ApplyOutcome::Success { new_version: 2 }));
}
