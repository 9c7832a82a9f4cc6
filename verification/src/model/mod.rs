//! Topics and messages.

pub mod messages;
pub mod topic;
