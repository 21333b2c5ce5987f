//! Verified core of a streaming meter-reading ingester.
//!
//! Raw comma-separated lines are parsed into typed samples, compared
//! against the watermark (the timestamp of the most recently stored
//! sample), and accepted samples are handed to a storage gateway whose
//! bounded reconnect-and-retry policy is decided here. All input/output
//! — reading lines, the storage round trips — lives outside this crate;
//! the functions here are pure and carry full contracts.

pub mod fields;
pub mod ingest;
pub mod numeric;
pub mod parser;
pub mod timestamp;
