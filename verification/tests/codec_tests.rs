//! The key codec: prefixes, version arithmetic, and key construction.

use gym_log::keys::{collection_from_version, get_collection_prefix, version_from_collection};
use gym_log::model::{Exercise, MeasurementSet, Workout};
use gym_log::row::{db_to_user, Payload, Row, RowData};
use gym_log::version::make_key_from_id;

#[test]
fn prefix_of_collection_zero() {
    assert_eq!(get_collection_prefix(0), "000000000#");
}

#[test]
fn prefix_is_zero_padded() {
    assert_eq!(get_collection_prefix(5), "000000005#");
    assert_eq!(get_collection_prefix(1234), "000001234#");
}

#[test]
fn prefix_of_largest_collection() {
    assert_eq!(get_collection_prefix(999_999_999), "999999999#");
}

#[test]
fn version_holds_collection_in_high_bits() {
    assert_eq!(version_from_collection(7), 7u64 << 32);
    assert_eq!(version_from_collection(0), 0);
}

#[test]
fn collection_survives_local_counter() {
    let v = version_from_collection(7) | 123;
    assert_eq!(collection_from_version(v), 7);
    assert_eq!(collection_from_version(123), 0);
}

#[test]
fn measurement_key_shape() {
    let key = make_key_from_id::<MeasurementSet>("000000000#", "2024-01-15");
    assert_eq!(key, "000000000#MEASUREMENT#2024-01-15");
    assert_eq!(key.len(), 32);
}

#[test]
fn workout_key_shape() {
    let key = make_key_from_id::<Workout>(
        "000000002#",
        "123e4567-e89b-42d3-a456-426614174000",
    );
    assert_eq!(key, "000000002#WORKOUT#123e4567-e89b-42d3-a456-426614174000");
    assert_eq!(key.len(), 54);
}

#[test]
fn exercise_key_shape() {
    let key = make_key_from_id::<Exercise>(
        "000000000#",
        "123e4567-e89b-42d3-a456-426614174000#223e4567-e89b-42d3-a456-426614174000",
    );
    assert_eq!(key.len(), 91);
    assert!(key.starts_with("000000000#WORKOUT#123e4567"));
}

#[test]
fn classifier_filters_foreign_collections() {
    let rows = vec![
        Row {
            key: String::from("000000000#MEASUREMENT#2024-01-01"),
            modified_version: 1,
            data: RowData::Live(Payload::Measurement {
                notes: String::from("mine"),
                measurements: Vec::new(),
            }),
        },
        Row {
            key: String::from("000000001#MEASUREMENT#2024-01-02"),
            modified_version: 9,
            data: RowData::Live(Payload::Measurement {
                notes: String::from("foreign"),
                measurements: Vec::new(),
            }),
        },
        Row {
            key: String::from("000000000#WORKOUT#123e4567-e89b-42d3-a456-426614174000"),
            modified_version: 2,
            data: RowData::Tombstone,
        },
    ];
    let user = db_to_user(0, true, true, &rows);
    assert_eq!(user.version, 0);
    assert_eq!(user.measurement_sets.len(), 1);
    assert_eq!(user.measurement_sets[0].date, "2024-01-01");
    assert_eq!(user.measurement_sets[0].notes, "mine");
    assert_eq!(user.deleted_workouts.len(), 1);
    assert_eq!(
        user.deleted_workouts[0].id,
        "123e4567-e89b-42d3-a456-426614174000"
    );
    assert_eq!(user.deleted_workouts[0].modified_version, 2);
}
