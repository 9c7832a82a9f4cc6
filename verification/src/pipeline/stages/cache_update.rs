//! Keeping the last known state of sensors.

use vstd::prelude::*;

use crate::infrastructure::cache::state::{
    normalized, sensor_updated, CacheEvent, CacheState, StateView,
};
use crate::model::messages::HandledMessage;
use crate::pipeline::context::{ContextError, PipelineContext};
use crate::pipeline::stage::StageFlow;

verus! {

/// The stage that puts a message of a sensor into the cache.
#[derive(Debug, Clone, Copy)]
pub struct CacheUpdateStage;

impl CacheUpdateStage {
    pub fn new() -> (stage: Self)
        ensures
            stage == CacheUpdateStage,
    {
        CacheUpdateStage
    }

    pub fn name(&self) -> (s: &'static str)
        ensures
            s@ == "cache_update"@,
    {
        "cache_update"
    }

    /// Puts a message of a sensor into the cache; any other message changes
    /// nothing. It fails if there is no message.
    pub fn run(&self, ctx: &PipelineContext, cache: &mut CacheState, now_ms: u64) -> (r: Result<
        (StageFlow, Option<CacheEvent>),
        ContextError,
    >)
        requires
            old(cache).wf(),
        ensures
            final(cache).wf(),
            final(cache).ttl() == old(cache).ttl(),
            final(cache).cap() == old(cache).cap(),
            match ctx@.handled_message {
                None => r matches Err(ContextError::HandledMessage) && *final(cache)
                    == *old(cache),
                Some(HandledMessage::Sensor(msg)) => {
                    &&& sensor_updated(
                        old(cache),
                        final(cache),
                        normalized(msg.device_id@),
                        (StateView { last_seen_ms: now_ms, value: msg.data@ }),
                    )
                    &&& r matches Ok(
                        (flow, Some(CacheEvent::Sensor { device_id, last_seen_ms, value })),
                    ) && flow is Continue && device_id@ == normalized(msg.device_id@)
                        && last_seen_ms == now_ms && value@ == msg.data@
                },
                Some(HandledMessage::Status(_)) => {
                    &&& *final(cache) == *old(cache)
                    &&& r matches Ok((flow, event)) && flow is Continue && event is None
                },
            },
    {
        let msg = match ctx.handled_message() {
            Ok(msg) => msg,
            Err(e) => {
                return Err(e);
            },
        };
        let event = cache.update(msg, now_ms);
        Ok((StageFlow::Continue, event))
    }
}

/// What a sensor says is kept under its name and goes out as an update; a message
/// on the state of a device changes nothing. Every message goes on.
pub proof fn law_sensors_are_kept(
    stage: CacheUpdateStage,
    ctx: PipelineContext,
    cache: &mut CacheState,
    now_ms: u64,
    r: Result<(StageFlow, Option<CacheEvent>), ContextError>,
)
    requires
        cache.wf(),
        call_ensures(CacheUpdateStage::run, (&stage, &ctx, cache, now_ms), r),
    ensures
        r is Ok <==> ctx@.handled_message is Some,
        r matches Ok((flow, event)) ==> flow is Continue && (event is Some
            <==> ctx@.handled_message->0 is Sensor),
        ctx@.handled_message matches Some(HandledMessage::Sensor(msg)) ==> final(cache).holds(
            normalized(msg.device_id@),
            (StateView { last_seen_ms: now_ms, value: msg.data@ }),
        ),
        !(ctx@.handled_message matches Some(HandledMessage::Sensor(_))) ==> *final(cache) == *old(
            cache,
        ),
{
    if let Some(HandledMessage::Sensor(msg)) = ctx@.handled_message {
        crate::infrastructure::cache::state::law_update_is_read_back(
            *cache,
            *final(cache),
            normalized(msg.device_id@),
            StateView { last_seen_ms: now_ms, value: msg.data@ },
        );
    }
}

} // verus!
