//! Appending messages to the log.

use vstd::prelude::*;

use crate::infrastructure::sink::influx::{message_line, InfluxEncoder};
use crate::infrastructure::wal::types::{TryAppendError, WalEvent};
use crate::pipeline::context::{ContextError, PipelineContext};
use crate::pipeline::stage::StageFlow;

verus! {

/// The stage that appends a message to the log.
#[derive(Debug, Clone, Copy)]
pub struct PersistStage {
    encoder: InfluxEncoder,
}

impl PersistStage {
    pub closed spec fn spec_encoder(&self) -> InfluxEncoder {
        self.encoder
    }

    pub fn new(encoder: InfluxEncoder) -> (stage: Self)
        ensures
            stage.spec_encoder() == encoder,
    {
        PersistStage { encoder }
    }

    pub fn name(&self) -> (s: &'static str)
        ensures
            s@ == "persist"@,
    {
        "persist"
    }

    /// The event to append: the topic of the message, the time, and the line of
    /// the message. It fails if there is no message.
    pub fn event(&self, ctx: &PipelineContext, now_ms: i64) -> (r: Result<WalEvent, ContextError>)
        ensures
            match ctx@.handled_message {
                None => r matches Err(ContextError::HandledMessage),
                Some(msg) => r matches Ok(event) && event@.topic == ctx@.topic && event@.ts_ms
                    == now_ms && event@.payload == message_line(&msg),
            },
    {
        let msg = match ctx.handled_message() {
            Ok(msg) => msg,
            Err(e) => {
                return Err(e);
            },
        };
        let mut payload = String::new();
        self.encoder.encode(msg, &mut payload);
        proof {
            assert(payload@ =~= message_line(msg));
        }
        Ok(WalEvent { topic: String::from_str(ctx.topic()), ts_ms: now_ms, payload })
    }

    /// What follows from the attempt to append. An event that the log did not
    /// take is marked for the dead-letter queue.
    pub fn appended(&self, ctx: &mut PipelineContext, result: Result<(), TryAppendError>) -> (r: (
        StageFlow,
        &'static str,
    ))
        ensures
            match result {
                Ok(()) => {
                    &&& final(ctx)@ == old(ctx)@
                    &&& r.0 is Continue
                    &&& r.1@ == "success"@
                },
                Err(TryAppendError::Full(_)) => {
                    &&& final(ctx)@ == old(ctx)@.marked_dlq("wal queue full"@)
                    &&& r.0 is Stop
                    &&& r.1@ == "queue_full"@
                },
                Err(TryAppendError::Closed(_)) => {
                    &&& final(ctx)@ == old(ctx)@.marked_dlq("wal queue closed"@)
                    &&& r.0 is Stop
                    &&& r.1@ == "queue_closed"@
                },
            },
    {
        match result {
            Ok(()) => (StageFlow::Continue, "success"),
            Err(TryAppendError::Full(_)) => {
                ctx.mark_dlq("wal queue full");
                (StageFlow::Stop, "queue_full")
            },
            Err(TryAppendError::Closed(_)) => {
                ctx.mark_dlq("wal queue closed");
                (StageFlow::Stop, "queue_closed")
            },
        }
    }
}

/// What is appended of a message is its line, under its topic and with the time;
/// nothing is appended where there is no message.
pub proof fn law_line_of_the_message_is_appended(
    stage: PersistStage,
    ctx: PipelineContext,
    now_ms: i64,
    r: Result<WalEvent, ContextError>,
)
    requires
        call_ensures(PersistStage::event, (&stage, &ctx, now_ms), r),
    ensures
        r is Ok <==> ctx@.handled_message is Some,
        r matches Ok(event) ==> event.topic@ == ctx@.topic && event.ts_ms == now_ms
            && event.payload@ == message_line(&ctx@.handled_message->0),
{
}

/// A message goes on if and only if the log took it, and is marked for the
/// dead-letter queue if and only if it did not.
pub proof fn law_only_appended_messages_go_on(
    stage: PersistStage,
    ctx: &mut PipelineContext,
    result: Result<(), TryAppendError>,
    r: (StageFlow, &'static str),
)
    requires
        call_ensures(PersistStage::appended, (&stage, ctx, result), r),
        ctx@.dlq_reason is None,
    ensures
        r.0 is Continue <==> result is Ok,
        r.0 is Stop <==> result is Err,
        final(ctx)@.dlq_reason is Some <==> result is Err,
        result is Ok ==> final(ctx)@ == old(ctx)@,
        result matches Err(TryAppendError::Full(_)) ==> r.1@ == "queue_full"@,
        result matches Err(TryAppendError::Closed(_)) ==> r.1@ == "queue_closed"@,
{
}

} // verus!
