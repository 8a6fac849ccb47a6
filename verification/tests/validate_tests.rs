//! Identifier and payload validation.

use gym_log::time::get_timestamp;
use gym_log::validate::{
    is_date, is_datetime, is_uuid, validate_date, validate_uuid, MaxLenStr, MaxLenVec, Uuid,
    ValidationError,
};

const GOOD_UUID: &str = "123e4567-e89b-42d3-a456-426614174000";

#[test]
fn uuid_accepts_canonical() {
    assert!(is_uuid(GOOD_UUID));
    assert!(is_uuid("00000000-0000-4000-8000-000000000000"));
    assert!(is_uuid("FFFFFFFF-FFFF-4FFF-BFFF-FFFFFFFFFFFF"));
}

#[test]
fn uuid_rejects_wrong_length() {
    assert!(!is_uuid(""));
    assert!(!is_uuid("123e4567-e89b-42d3-a456-42661417400"));
    assert!(!is_uuid("123e4567-e89b-42d3-a456-4266141740000"));
}

#[test]
fn uuid_rejects_misplaced_hyphen() {
    assert!(!is_uuid("123e45670e89b-42d3-a456-426614174000"));
}

#[test]
fn uuid_rejects_wrong_version_nibble() {
    assert!(!is_uuid("123e4567-e89b-52d3-a456-426614174000"));
}

#[test]
fn uuid_rejects_wrong_variant() {
    assert!(!is_uuid("123e4567-e89b-42d3-c456-426614174000"));
}

#[test]
fn uuid_rejects_non_hex() {
    assert!(!is_uuid("123e4567-e89b-42d3-a456-42661417400g"));
}

#[test]
fn validate_uuid_reports_error() {
    assert!(validate_uuid(GOOD_UUID).is_ok());
    assert!(matches!(
        validate_uuid("nope"),
        Err(ValidationError::InvalidUuid)
    ));
}

#[test]
fn date_accepts_real_days() {
    assert!(is_date("2024-02-29"));
    assert!(is_date("1999-12-31"));
}

#[test]
fn date_rejects_impossible_days() {
    assert!(!is_date("2023-02-29"));
    assert!(!is_date("2024-13-01"));
    assert!(!is_date("not-a-date"));
}

#[test]
fn validate_date_reports_error() {
    assert!(validate_date("2024-01-01").is_ok());
    assert!(matches!(
        validate_date("2024-01-32"),
        Err(ValidationError::InvalidDate)
    ));
}

#[test]
fn datetime_accepts_second_precision() {
    assert!(is_datetime("2024-01-02T03:04:05Z"));
    assert!(!is_datetime("2024-01-02"));
    assert!(!is_datetime("2024-01-02T03:04Z"));
}

#[test]
fn uuid_wrapper_checks_on_construction() {
    assert!(Uuid::new(String::from(GOOD_UUID)).is_ok());
    assert!(matches!(
        Uuid::new(String::from("xyz")),
        Err(ValidationError::InvalidUuid)
    ));
}

#[test]
fn max_len_str_caps_length() {
    assert!(MaxLenStr::<5>::new(String::from("abcde")).is_ok());
    assert!(matches!(
        MaxLenStr::<5>::new(String::from("abcdef")),
        Err(ValidationError::TooLong)
    ));
}

#[test]
fn max_len_vec_caps_length() {
    assert!(MaxLenVec::<u32, 2>::new(vec![1, 2]).is_ok());
    assert!(matches!(
        MaxLenVec::<u32, 2>::new(vec![1, 2, 3]),
        Err(ValidationError::TooMany)
    ));
}

#[test]
fn clock_reads_after_epoch() {
    assert!(get_timestamp() > 0);
}
