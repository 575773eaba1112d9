//! Worker selection for KV-aware routing, and per-request metrics records.

pub mod binary64;
pub mod request_metrics;
pub mod scheduling;
pub mod text;
