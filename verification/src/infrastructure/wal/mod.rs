//! The write-ahead log: framed records in numbered segment files.

pub mod codec;
pub mod cursor;
pub mod forwarder;
pub mod log_model;
pub mod recover;
pub mod segment;
pub mod subscription;
pub mod types;
pub mod wal;
pub mod writer;
pub mod writer_run;
