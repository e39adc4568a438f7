//! Flag-detection pipeline: a stateless rule engine that turns telemetry
//! snapshots into anomaly flags, together with the pure parts of the flag
//! store (encoding, decoding, naming and querying of flag artifacts).
//!
//! Fractional measurements (percentages, unit-interval scores) are carried
//! as fixed-point integers in thousandths, so that every rule decision and
//! every encoded artifact is exact.

pub mod models;
pub mod numtext;
pub mod codec;
pub mod detector;
pub mod ingest;
pub mod storage;
pub mod utils;
