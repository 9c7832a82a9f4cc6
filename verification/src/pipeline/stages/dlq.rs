//! Publishing messages on the dead-letter queue.

use vstd::prelude::*;

use crate::infrastructure::json::json_bytes;
use crate::infrastructure::source::mqtt::{dlq_envelope, dlq_message};
use crate::pipeline::context::PipelineContext;
use crate::pipeline::stage::StageFlow;

verus! {

/// The stage that publishes a message on the dead-letter queue. The pipeline
/// stops with it.
#[derive(Debug)]
pub struct DlqPublishStage {
    dlq_topic: String,
}

/// A message to publish.
#[derive(Debug)]
pub struct DlqPublication {
    pub topic: String,
    pub bytes: Vec<u8>,
}

/// How the stage goes on.
#[derive(Debug)]
pub enum DlqStep {
    /// This is to be published, and the stage to be told how that went.
    Publish(DlqPublication),
    /// There is nothing to publish.
    Ended(StageFlow),
}

impl DlqPublishStage {
    /// The topic of the dead-letter queue.
    pub closed spec fn spec_topic(&self) -> Seq<char> {
        self.dlq_topic@
    }

    pub fn new(dlq_topic: &str) -> (stage: Self)
        ensures
            stage.spec_topic() == dlq_topic@,
    {
        DlqPublishStage { dlq_topic: String::from_str(dlq_topic) }
    }

    pub fn name(&self) -> (s: &'static str)
        ensures
            s@ == "dlq_publish"@,
    {
        "dlq_publish"
    }

    /// What is published of a message: its topic and payload, and why it is
    /// here. Nothing is published of a message that is not marked for the
    /// dead-letter queue, and the pipeline stops.
    pub fn run(&self, ctx: &PipelineContext, received_at: &str) -> (r: DlqStep)
        ensures
            match ctx@.dlq_reason {
                None => r matches DlqStep::Ended(flow) && flow is Stop,
                Some(reason) => r matches DlqStep::Publish(p) && p.topic@ == self.spec_topic()
                    && p.bytes@ == json_bytes(
                    dlq_envelope(received_at@, ctx@.topic, reason, ctx@.dlq_payload()),
                ),
            },
    {
        let reason = match ctx.dlq_reason() {
            Some(reason) => reason,
            None => {
                return DlqStep::Ended(StageFlow::Stop);
            },
        };
        let payload = ctx.payload_for_dlq();
        DlqStep::Publish(
            DlqPublication {
                topic: self.dlq_topic.clone(),
                bytes: dlq_message(received_at, ctx.topic(), payload.as_str(), reason),
            },
        )
    }

    /// The message was published, or could not be: the pipeline stops either way.
    pub fn published(&self, result: Result<(), String>) -> (r: (StageFlow, &'static str))
        ensures
            r.0 is Stop,
            r.1@ == (if result is Ok {
                "success"@
            } else {
                "failed"@
            }),
    {
        match result {
            Ok(()) => (StageFlow::Stop, "success"),
            Err(_) => (StageFlow::Stop, "failed"),
        }
    }
}

/// A message is published on the dead-letter queue if and only if it is marked
/// for it, and the pipeline stops either way.
pub proof fn law_only_marked_messages_are_published(
    stage: DlqPublishStage,
    ctx: PipelineContext,
    received_at: &str,
    step: DlqStep,
    result: Result<(), String>,
    r: (StageFlow, &'static str),
)
    requires
        call_ensures(DlqPublishStage::run, (&stage, &ctx, received_at), step),
        call_ensures(DlqPublishStage::published, (&stage, result), r),
    ensures
        step is Publish <==> ctx@.dlq_reason is Some,
        step matches DlqStep::Publish(p) ==> p.topic@ == stage.spec_topic() && p.bytes@
            == json_bytes(
            dlq_envelope(
                received_at@,
                ctx@.topic,
                ctx@.dlq_reason->0,
                ctx@.dlq_payload(),
            ),
        ),
        step matches DlqStep::Ended(flow) ==> flow is Stop,
        r.0 is Stop,
{
}

} // verus!
