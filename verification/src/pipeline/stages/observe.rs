//! Counting the messages that went through.

use vstd::prelude::*;

use crate::model::messages::MessageType;
use crate::pipeline::context::{ContextError, PipelineContext};
use crate::pipeline::stage::StageFlow;

verus! {

/// The stage that counts the messages that went through.
#[derive(Debug, Clone, Copy)]
pub struct ObserveStage;

impl ObserveStage {
    pub fn new() -> (stage: Self)
        ensures
            stage == ObserveStage,
    {
        ObserveStage
    }

    pub fn name(&self) -> (s: &'static str)
        ensures
            s@ == "observe"@,
    {
        "observe"
    }

    /// The kind under which the message is counted. It fails if there is no
    /// message.
    pub fn run(&self, ctx: &PipelineContext) -> (r: Result<(StageFlow, MessageType), ContextError>)
        ensures
            match ctx@.handled_message {
                None => r matches Err(ContextError::HandledMessage),
                Some(msg) => r matches Ok((flow, kind)) && flow is Continue && kind
                    == msg.spec_kind(),
            },
    {
        match ctx.handled_message() {
            Ok(msg) => Ok((StageFlow::Continue, msg.kind())),
            Err(e) => Err(e),
        }
    }
}

/// A message is counted under its own kind, and goes on.
pub proof fn law_messages_are_counted_by_kind(
    stage: ObserveStage,
    ctx: PipelineContext,
    r: Result<(StageFlow, MessageType), ContextError>,
)
    requires
        call_ensures(ObserveStage::run, (&stage, &ctx), r),
    ensures
        r is Ok <==> ctx@.handled_message is Some,
        r matches Ok((flow, kind)) ==> flow is Continue && (kind is Sensor
            <==> ctx@.handled_message->0 is Sensor),
{
}

} // verus!
