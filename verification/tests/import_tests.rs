//! The bulk import: lease handling, the merge, and the collection switch.

use gym_log::engine::ApplyOutcome;
use gym_log::handlers::{user_measurement, user_workout};
use gym_log::import::{acquire_lock, put_snapshot, ImportError};
use gym_log::model::{MeasurementSet, User, VersionDeleteReq, VersionModifyReq, Workout};
use gym_log::query::{get_changed, read_snapshot};
use gym_log::store::UserStore;

const W1: &str = "123e4567-e89b-42d3-a456-426614174000";

fn measurement(date: &str, notes: &str, pairs: &[(&str, &str)]) -> MeasurementSet {
    MeasurementSet {
        date: String::from(date),
        notes: String::from(notes),
        measurements: pairs
            .iter()
            .map(|(k, v)| (String::from(*k), String::from(*v)))
            .collect(),
        modified_version: 0,
    }
}

fn workout(id: &str, notes: &str) -> Workout {
    Workout {
        workout_id: String::from(id),
        start_time: None,
        finish_time: None,
        notes: String::from(notes),
        modified_version: 0,
    }
}

fn import_user(measurement_sets: Vec<MeasurementSet>, workouts: Vec<Workout>) -> User {
    User {
        version: 0,
        measurement_sets,
        workouts,
        exercises: Vec::new(),
        deleted_measurement_sets: Vec::new(),
        deleted_workouts: Vec::new(),
        deleted_exercises: Vec::new(),
    }
}

/// Builds a dataset holding measurement A (modified at version 2), live
/// workout W1 (modified at version 1), and a tombstone for measurement B
/// (deleted at version 4).
fn seeded_store() -> UserStore {
    let mut store = UserStore::new();
    user_workout::put(&mut store, 1000, W1, &VersionModifyReq {
        version: 0,
        item: workout("", "legs"),
    })
    .unwrap();
    user_measurement::put(&mut store, 1000, "2024-01-01", &VersionModifyReq {
        version: 1,
        item: measurement("", "A", &[("weight", "82.5"), ("height", "180")]),
    })
    .unwrap();
    user_measurement::put(&mut store, 1000, "2024-01-02", &VersionModifyReq {
        version: 2,
        item: measurement("", "B", &[]),
    })
    .unwrap();
    user_measurement::delete(&mut store, 1000, "2024-01-02", &VersionDeleteReq { version: 3 });
    store
}

#[test]
fn import_merges_and_switches_collection() {
    let mut store = seeded_store();

    // The snapshot lists A unchanged (same payload, different pair order)
    // and a new measurement C; it does not mention the workout or B.
    let import = import_user(
        vec![
            measurement("2024-01-01", "A", &[("height", "180"), ("weight", "82.5")]),
            measurement("2024-03-01", "C", &[("weight", "80")]),
        ],
        Vec::new(),
    );
    put_snapshot(&mut store, 2000, &import).unwrap();

    let new_version = 1u64 << 32;
    let snapshot = read_snapshot(&store);
    assert_eq!(snapshot.version, new_version);

    // A kept its original modified version; C is stamped with the new one;
    // the unmentioned workout was carried over unchanged.
    assert_eq!(snapshot.measurement_sets.len(), 2);
    let a = snapshot.measurement_sets.iter().find(|m| m.date == "2024-01-01").unwrap();
    assert_eq!(a.modified_version, 2);
    assert_eq!(a.notes, "A");
    let c = snapshot.measurement_sets.iter().find(|m| m.date == "2024-03-01").unwrap();
    assert_eq!(c.modified_version, new_version);
    assert_eq!(snapshot.workouts.len(), 1);
    assert_eq!(snapshot.workouts[0].modified_version, 1);

    // B remains a tombstone in the new collection, under its original stamp.
    let changes = get_changed(&store, 0);
    assert_eq!(changes.deleted_measurement_sets.len(), 1);
    assert_eq!(changes.deleted_measurement_sets[0].id, "2024-01-02");
    assert_eq!(changes.deleted_measurement_sets[0].modified_version, 4);

    // The old collection's rows are gone: every key belongs to collection 1.
    for row in store.rows.iter() {
        assert!(row.key.starts_with("000000001#"));
    }
}

#[test]
fn import_restamps_changed_entities() {
    let mut store = seeded_store();
    let import = import_user(
        vec![measurement("2024-01-01", "A", &[("weight", "90")])],
        Vec::new(),
    );
    put_snapshot(&mut store, 2000, &import).unwrap();
    let snapshot = read_snapshot(&store);
    let a = snapshot.measurement_sets.iter().find(|m| m.date == "2024-01-01").unwrap();
    assert_eq!(a.modified_version, 1u64 << 32);
}

#[test]
fn lease_excludes_second_import_until_it_expires() {
    let mut store = seeded_store();
    assert!(acquire_lock(&mut store, 1000).is_ok());
    match acquire_lock(&mut store, 1030) {
        Err(delay) => assert_eq!(delay, 30),
        Ok(_) => panic!("the lease should still be active"),
    }
    assert!(acquire_lock(&mut store, 1060).is_ok());
}

#[test]
fn import_refused_while_lease_active() {
    let mut store = seeded_store();
    acquire_lock(&mut store, 1000).unwrap();
    let import = import_user(Vec::new(), Vec::new());
    match put_snapshot(&mut store, 1010, &import) {
        Err(ImportError::RetryLater { seconds }) => assert_eq!(seconds, 50),
        _ => panic!("the import should wait for the lease"),
    }
    assert!(put_snapshot(&mut store, 1060, &import).is_ok());
}

#[test]
fn import_rejects_malformed_ids() {
    let mut store = seeded_store();
    let import = import_user(vec![measurement("01-01", "A", &[])], Vec::new());
    assert!(matches!(
        put_snapshot(&mut store, 2000, &import),
        Err(ImportError::Invalid(_))
    ));
}

#[test]
fn import_lifts_version_past_any_local_counter() {
    let mut store = seeded_store();
    let import = import_user(Vec::new(), Vec::new());
    put_snapshot(&mut store, 2000, &import).unwrap();
    // Mutations continue from the new collection's version.
    let out = user_measurement::put(&mut store, 3000, "2024-05-05", &VersionModifyReq {
        version: 1u64 << 32,
        item: measurement("", "later", &[]),
    })
    .unwrap();
    assert!(matches!(out, ApplyOutcome::Success { new_version } if new_version == (1u64 << 32) + 1));
}
