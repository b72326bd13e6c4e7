//! A small data-acquisition library: it models the decision logic of an
//! embedded sensor-upload loop.  The library validates wireless credentials,
//! drives the connection lifecycle (scan, associate, obtain an address) as a
//! state machine with wall-clock deadlines, and builds the JSON document and
//! HTTPS request that carry a measurement to a remote document store.  All
//! radio, bus and socket traffic stays outside; the library works on plain
//! values and every function here is verified against its contract.
pub mod config;
pub mod error;
pub mod json;
pub mod upload;
pub mod wifi;
