//! Raw validation: whether a message is what its topic promises.

use std::sync::Arc;

use vstd::prelude::*;

use crate::infrastructure::json::JsonNode;
use crate::infrastructure::router::{
    is_rfc3339, router_result, topic_device, RouteError, Router,
};
use crate::infrastructure::schema::schema_accepts;
use crate::model::messages::MessageType;
use crate::pipeline::context::{ContextError, ContextView, PipelineContext};
use crate::pipeline::stage::{StageFlow, StageResult};

verus! {

/// The stage that holds a message against the route of its topic.
pub struct ValidateRawStage {
    router: Arc<Router>,
    enforce_topic_device_match: bool,
}

/// What the stage makes of a message, and how it goes on, when the router gave
/// this result.
pub open spec fn validated(
    before: ContextView,
    result: Result<Option<MessageType>, RouteError>,
    after: ContextView,
    flow: StageFlow,
    label: Seq<char>,
) -> bool {
    match result {
        Ok(Some(_)) => after == before && flow is Continue && label == "success"@,
        Ok(None) => after == before.marked_ignored("no matching route"@) && flow is Stop && label
            == "no_matching_route"@,
        Err(e) => after == before.marked_dlq("raw validation failed: "@ + e.text()) && flow is Stop
            && label == "failed"@,
    }
}

impl ValidateRawStage {
    pub closed spec fn spec_router(&self) -> Router {
        *self.router
    }

    pub closed spec fn spec_enforce(&self) -> bool {
        self.enforce_topic_device_match
    }

    pub fn new(router: Arc<Router>, enforce_topic_device_match: bool) -> (stage: Self)
        ensures
            stage.spec_router() == *router,
            stage.spec_enforce() == enforce_topic_device_match,
    {
        ValidateRawStage { router, enforce_topic_device_match }
    }

    pub fn name(&self) -> (s: &'static str)
        ensures
            s@ == "validate_raw"@,
    {
        "validate_raw"
    }

    /// What follows from the result of the router.
    pub fn conclude(
        ctx: &mut PipelineContext,
        result: Result<Option<MessageType>, RouteError>,
    ) -> (r: (StageFlow, &'static str))
        ensures
            validated(old(ctx)@, result, final(ctx)@, r.0, r.1@),
    {
        match result {
            Ok(Some(_)) => (StageFlow::Continue, "success"),
            Ok(None) => {
                ctx.mark_ignored("no matching route");
                (StageFlow::Stop, "no_matching_route")
            },
            Err(e) => {
                let mut reason = String::from_str("raw validation failed: ");
                reason.append(e.message().as_str());
                ctx.mark_dlq(reason.as_str());
                (StageFlow::Stop, "failed")
            },
        }
    }

    /// Holds a message against the route of its topic. It fails if the payload
    /// was not decoded.
    pub fn run(&self, ctx: &mut PipelineContext) -> (r: StageResult)
        ensures
            match old(ctx)@.payload_json {
                None => r matches Err(ContextError::PayloadJson) && final(ctx)@ == old(ctx)@,
                Some(payload) => r matches Ok((flow, label)) && exists|
                    result: Result<Option<MessageType>, RouteError>,
                |
                    router_result(
                        &self.spec_router(),
                        old(ctx)@.topic,
                        payload,
                        self.spec_enforce(),
                        result,
                    ) && #[trigger] validated(old(ctx)@, result, final(ctx)@, flow, label@),
            },
    {
        let result = {
            let payload = match ctx.payload_json() {
                Ok(payload) => payload,
                Err(e) => {
                    return Err(e);
                },
            };
            self.router.validate_raw(ctx.topic(), payload, self.enforce_topic_device_match)
        };
        let outcome = ValidateRawStage::conclude(ctx, result);
        proof {
            assert(validated(old(ctx)@, result, ctx@, outcome.0, outcome.1@));
        }
        Ok(outcome)
    }
}

/// A message goes on if and only if a route took it. It is marked for the
/// dead-letter queue if and only if it failed, and as ignored if and only if no
/// route is for it.
pub proof fn law_only_routed_messages_go_on(
    before: ContextView,
    result: Result<Option<MessageType>, RouteError>,
    after: ContextView,
    flow: StageFlow,
    label: Seq<char>,
)
    requires
        validated(before, result, after, flow, label),
        before.dlq_reason is None,
        before.ignored_reason is None,
    ensures
        flow is Continue <==> result matches Ok(Some(_)),
        after.dlq_reason is Some <==> result is Err,
        after.ignored_reason is Some <==> result matches Ok(None),
        after.topic == before.topic,
        after.raw_payload == before.raw_payload,
        after.payload_json == before.payload_json,
        result is Err <==> label == "failed"@,
        result matches Ok(Some(_)) <==> label == "success"@,
{
    reveal_strlit("failed");
    reveal_strlit("success");
    reveal_strlit("no_matching_route");
    assert("failed"@.len() == 6 && "success"@.len() == 7 && "no_matching_route"@.len() == 17);
}

/// A message that goes on has a route, whose schema accepts it; its time is not
/// malformed; and it names the device of its topic, if the stage enforces that.
pub proof fn law_messages_that_go_on_are_sound(
    stage: ValidateRawStage,
    ctx: &mut PipelineContext,
    payload: JsonNode,
    r: StageResult,
)
    requires
        call_ensures(ValidateRawStage::run, (&stage, ctx), r),
        ctx@.payload_json == Some(payload),
        r matches Ok((flow, _)) && flow is Continue,
    ensures
        stage.spec_router().route_of(old(ctx)@.topic) matches Some(route) && {
            &&& schema_accepts(route.source(), payload)
            &&& payload.member_text("time_iso"@) matches Some(time) ==> is_rfc3339(time)
            &&& stage.spec_enforce() ==> payload.member_text("device_id"@) == topic_device(
                route.device_level(),
                old(ctx)@.topic,
            )
        },
        final(ctx)@ == old(ctx)@,
{
}

} // verus!
