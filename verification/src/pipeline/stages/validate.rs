//! Validation in one step: whether a message is what its topic promises, and
//! the message.

use std::sync::Arc;

use vstd::prelude::*;

use crate::infrastructure::router::{router_processed, RouteError, Router};
use crate::model::messages::HandledMessage;
use crate::pipeline::context::{ContextError, ContextView, PipelineContext};
use crate::pipeline::stage::{StageFlow, StageResult};

verus! {

/// The stage that holds a message against the route of its topic, and keeps the
/// message as it was read.
pub struct ValidateStage {
    router: Arc<Router>,
    enforce_topic_device_match: bool,
}

/// What the stage makes of a message, and how it goes on, when the router gave
/// this result.
pub open spec fn concluded(
    before: ContextView,
    result: Result<Option<HandledMessage>, RouteError>,
    after: ContextView,
    flow: StageFlow,
    label: Seq<char>,
) -> bool {
    match result {
        Ok(Some(msg)) => {
            &&& after == (ContextView { handled_message: Some(msg), ..before })
            &&& flow is Continue
            &&& label == "success"@
        },
        Ok(None) => after == before.marked_ignored("no matching route"@) && flow is Stop && label
            == "no_matching_route"@,
        Err(e) => after == before.marked_dlq("validation failed: "@ + e.text()) && flow is Stop
            && label == "failed"@,
    }
}

impl ValidateStage {
    pub closed spec fn spec_router(&self) -> Router {
        *self.router
    }

    pub closed spec fn spec_enforce(&self) -> bool {
        self.enforce_topic_device_match
    }

    pub fn new(router: Arc<Router>, enforce_topic_device_match: bool) -> (stage: Self)
        ensures
            stage.spec_router() == *router,
            stage.spec_enforce() == enforce_topic_device_match,
    {
        ValidateStage { router, enforce_topic_device_match }
    }

    pub fn name(&self) -> (s: &'static str)
        ensures
            s@ == "ValidateStage"@,
    {
        "ValidateStage"
    }

    /// What follows from the result of the router.
    pub fn conclude(
        ctx: &mut PipelineContext,
        result: Result<Option<HandledMessage>, RouteError>,
    ) -> (r: (StageFlow, &'static str))
        ensures
            concluded(old(ctx)@, result, final(ctx)@, r.0, r.1@),
    {
        match result {
            Ok(Some(msg)) => {
                ctx.set_handled_message(msg);
                (StageFlow::Continue, "success")
            },
            Ok(None) => {
                ctx.mark_ignored("no matching route");
                (StageFlow::Stop, "no_matching_route")
            },
            Err(e) => {
                let mut reason = String::from_str("validation failed: ");
                reason.append(e.message().as_str());
                ctx.mark_dlq(reason.as_str());
                (StageFlow::Stop, "failed")
            },
        }
    }

    /// Holds a message against the route of its topic. `read` is the message read
    /// into the kind of that route, if it can be. It fails if the payload was not
    /// decoded.
    pub fn run(&self, ctx: &mut PipelineContext, read: Option<HandledMessage>) -> (r: StageResult)
        requires
            read matches Some(msg) ==> self.spec_router().takes_kind(
                old(ctx)@.topic,
                msg.spec_kind(),
            ),
        ensures
            match old(ctx)@.payload_json {
                None => r matches Err(ContextError::PayloadJson) && final(ctx)@ == old(ctx)@,
                Some(payload) => r matches Ok((flow, label)) && exists|
                    result: Result<Option<HandledMessage>, RouteError>,
                |
                    router_processed(
                        &self.spec_router(),
                        old(ctx)@.topic,
                        payload,
                        self.spec_enforce(),
                        read,
                        result,
                    ) && #[trigger] concluded(old(ctx)@, result, final(ctx)@, flow, label@),
            },
    {
        let result = {
            let payload = match ctx.payload_json() {
                Ok(payload) => payload,
                Err(e) => {
                    return Err(e);
                },
            };
            self.router.process(ctx.topic(), payload, self.enforce_topic_device_match, read)
        };
        let outcome = ValidateStage::conclude(ctx, result);
        proof {
            assert(concluded(old(ctx)@, result, ctx@, outcome.0, outcome.1@));
        }
        Ok(outcome)
    }
}

/// A message goes on if and only if a route took it. It is marked for the
/// dead-letter queue if and only if it failed, and as ignored if and only if no
/// route is for it.
pub proof fn law_only_read_messages_go_on(
    before: ContextView,
    result: Result<Option<HandledMessage>, RouteError>,
    after: ContextView,
    flow: StageFlow,
    label: Seq<char>,
)
    requires
        concluded(before, result, after, flow, label),
        before.dlq_reason is None,
        before.ignored_reason is None,
    ensures
        flow is Continue <==> result matches Ok(Some(_)),
        after.dlq_reason is Some <==> result is Err,
        after.ignored_reason is Some <==> result matches Ok(None),
        after.topic == before.topic,
        after.raw_payload == before.raw_payload,
        after.payload_json == before.payload_json,
        result matches Ok(Some(msg)) ==> after.handled_message == Some(msg),
        !(result matches Ok(Some(_))) ==> after.handled_message == before.handled_message,
        result is Err <==> label == "failed"@,
        result matches Ok(Some(_)) <==> label == "success"@,
{
    reveal_strlit("failed");
    reveal_strlit("success");
    reveal_strlit("no_matching_route");
    assert("failed"@.len() == 6 && "success"@.len() == 7 && "no_matching_route"@.len() == 17);
}

} // verus!
