//! Verified core of a smart-home telemetry ingest service.

pub mod config;
pub mod infrastructure;
pub mod model;
pub mod pipeline;
pub mod text;
pub mod wire;
