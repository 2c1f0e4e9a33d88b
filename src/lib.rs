//! Block heights of a configured set of blockchain networks: chain
//! classification, response decoding, first-success endpoint resolution,
//! the per-class height snapshots and the refresh schedule.

pub mod text;
pub mod chain;
pub mod number;
pub mod json;
pub mod fetch;
pub mod resolve;
pub mod snapshot;
pub mod cache;
pub mod models;
pub mod assets;
pub mod api;
pub mod scheduler;
