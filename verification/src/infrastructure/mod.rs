//! The parts that stand between the pipeline and the outside world.

pub mod cache;
pub mod json;
pub mod router;
pub mod schema;
pub mod sink;
pub mod source;
pub mod wal;
