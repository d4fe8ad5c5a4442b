//! Propagation of environment-scoped secrets from a central secret store into a
//! cluster's own secret store, with a value-format detector and a local TTL cache.
pub mod config;
pub mod errors;
pub mod cache;
pub mod fields;
pub mod detect;
pub mod listing;
pub mod sync;
pub mod payload;
pub mod cluster;
