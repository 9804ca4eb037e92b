//! Edge telemetry ingestion: time-ordered event stores, per-sensor streams,
//! services that own one broker connection each, and a router over services.

pub mod model;
pub mod envelope;
pub mod store;
pub mod client;
pub mod service;
pub mod router;
