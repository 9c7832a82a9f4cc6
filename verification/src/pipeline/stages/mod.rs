//! The stages of the pipeline.

pub mod cache_update;
pub mod decode;
pub mod dlq;
pub mod observe;
pub mod persist;
pub mod transform;
pub mod validate;
pub mod validate_business;
pub mod validate_raw;
