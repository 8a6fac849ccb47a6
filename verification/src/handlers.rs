//! The mutating endpoints, one module per resource: each validates its
//! identifiers and payload, builds the transaction steps for its kind, and
//! submits them through the conditional-apply engine.

pub mod user_measurement;
pub mod user_workout;
pub mod user_workout_exercise;
pub mod user_workout_order;
