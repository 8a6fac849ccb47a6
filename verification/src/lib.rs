//! A verified core for a per-user fitness-record synchronization protocol:
//! version-based optimistic concurrency, incremental change queries, validated
//! snapshot reads, batched writes with retry, and a locked bulk-import that
//! switches the dataset to a fresh collection.

pub mod batch;
pub mod engine;
pub mod handlers;
pub mod import;
pub mod keys;
pub mod laws;
pub mod model;
pub mod query;
pub mod row;
pub mod store;
pub mod time;
pub mod validate;
pub mod version;
