//! Service status aggregation and control for a dashboard over locally
//! supervised daemon services.
//!
//! The crate holds the verified core: enumerated service names are probed
//! (by the caller, over each service's control socket), the raw probe
//! outcomes are classified into a small status vocabulary, the resulting
//! records are sorted deterministically by name, and start/stop outcomes
//! from the process supervisor are normalized into a uniform response
//! envelope. All I/O (filesystem registry scan, socket probing, the HTTP
//! surface) lives outside this crate and hands in plain values.

pub mod model;
pub mod order;
pub mod sort;
pub mod api;
