//! What a stage of the pipeline says of how to go on.

use vstd::prelude::*;

use crate::pipeline::context::ContextError;

verus! {

/// Whether the next stage runs.
#[derive(Debug, Clone, Copy, PartialEq, Eq, Structural)]
pub enum StageFlow {
    Continue,
    Stop,
}

/// The outcome of a stage: how to go on, and a label for the metrics.
pub type StageResult = Result<(StageFlow, &'static str), ContextError>;

} // verus!
