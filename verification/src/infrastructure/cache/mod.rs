//! The last known state of the sensors.

pub mod http;
pub mod state;
