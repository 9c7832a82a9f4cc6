//! The pipeline that a message goes through.

pub mod context;
pub mod runner;
pub mod stage;
pub mod stages;
