//! The order in which stages run.

use vstd::prelude::*;

use crate::pipeline::context::{ContextView, PipelineContext};
use crate::pipeline::stage::StageFlow;

verus! {

/// The stages of a pipeline, and the one that handles a message which is marked
/// for the dead-letter queue.
pub struct PipelineRunner<S> {
    stages: Vec<S>,
    failure_stage: Option<S>,
}

/// What runs next.
#[derive(Debug, Clone, Copy, PartialEq, Eq, Structural)]
pub enum RunnerStep {
    /// The stage with this number.
    Stage(usize),
    /// The failure stage.
    FailureStage,
    /// Nothing: the message is marked for the dead-letter queue, but there is
    /// no failure stage.
    Unhandled,
    /// Nothing: the message is through.
    Done,
}

impl<S> PipelineRunner<S> {
    pub closed spec fn spec_stages(&self) -> Seq<S> {
        self.stages@
    }

    pub closed spec fn spec_failure_stage(&self) -> Option<S> {
        self.failure_stage
    }

    /// What runs after the last stage.
    pub open spec fn conclusion(&self, ctx: ContextView) -> RunnerStep {
        if ctx.dlq_reason is None {
            RunnerStep::Done
        } else if self.spec_failure_stage() is Some {
            RunnerStep::FailureStage
        } else {
            RunnerStep::Unhandled
        }
    }

    /// What runs after the stage number `i`, if it says to go on or to stop.
    pub open spec fn step_after(&self, i: nat, flow: StageFlow, ctx: ContextView) -> RunnerStep {
        if flow is Continue && i + 1 < self.spec_stages().len() {
            RunnerStep::Stage((i + 1) as usize)
        } else {
            self.conclusion(ctx)
        }
    }

    pub fn new() -> (r: Self)
        ensures
            r.spec_stages() == Seq::<S>::empty(),
            r.spec_failure_stage() is None,
    {
        PipelineRunner { stages: Vec::new(), failure_stage: None }
    }

    pub fn add_stage(self, stage: S) -> (r: Self)
        ensures
            r.spec_stages() == self.spec_stages().push(stage),
            r.spec_failure_stage() == self.spec_failure_stage(),
    {
        let mut stages = self.stages;
        stages.push(stage);
        PipelineRunner { stages, failure_stage: self.failure_stage }
    }

    pub fn with_failure_stage(self, stage: S) -> (r: Self)
        ensures
            r.spec_stages() == self.spec_stages(),
            r.spec_failure_stage() == Some(stage),
    {
        PipelineRunner { stages: self.stages, failure_stage: Some(stage) }
    }

    /// The stage with this number.
    pub fn stage(&self, i: usize) -> (r: Option<&S>)
        ensures
            match r {
                Some(stage) => i < self.spec_stages().len() && *stage == self.spec_stages()[
                    i as int
                ],
                None => i >= self.spec_stages().len(),
            },
    {
        if i < self.stages.len() {
            Some(&self.stages[i])
        } else {
            None
        }
    }

    pub fn failure_stage(&self) -> (r: Option<&S>)
        ensures
            match r {
                Some(stage) => self.spec_failure_stage() == Some(*stage),
                None => self.spec_failure_stage() is None,
            },
    {
        match &self.failure_stage {
            Some(stage) => Some(stage),
            None => None,
        }
    }

    fn conclude(&self, ctx: &PipelineContext) -> (step: RunnerStep)
        ensures
            step == self.conclusion(ctx@),
    {
        if !ctx.should_publish_dlq() {
            RunnerStep::Done
        } else if self.failure_stage.is_some() {
            RunnerStep::FailureStage
        } else {
            RunnerStep::Unhandled
        }
    }

    /// What runs first.
    pub fn start(&self, ctx: &PipelineContext) -> (step: RunnerStep)
        ensures
            step == (if self.spec_stages().len() > 0 {
                RunnerStep::Stage(0)
            } else {
                self.conclusion(ctx@)
            }),
    {
        if self.stages.len() > 0 {
            RunnerStep::Stage(0)
        } else {
            self.conclude(ctx)
        }
    }

    /// What runs after the stage number `i`, of this name. A stage that failed
    /// marks the message for the dead-letter queue and stops the pipeline.
    pub fn after_stage(
        &self,
        i: usize,
        name: &str,
        result: Result<StageFlow, String>,
        ctx: &mut PipelineContext,
    ) -> (step: RunnerStep)
        requires
            i < self.spec_stages().len(),
        ensures
            step == self.step_after(
                i as nat,
                match result {
                    Ok(flow) => flow,
                    Err(_) => StageFlow::Stop,
                },
                final(ctx)@,
            ),
            match result {
                Ok(flow) => {
                    &&& final(ctx)@ == old(ctx)@
                    &&& step == (if flow is Continue && i + 1 < self.spec_stages().len() {
                        RunnerStep::Stage((i + 1) as usize)
                    } else {
                        self.conclusion(old(ctx)@)
                    })
                },
                Err(cause) => {
                    &&& final(ctx)@ == old(ctx)@.marked_dlq(
                        "stage '"@ + name@ + "' failed: "@ + cause@,
                    )
                    &&& step == self.conclusion(final(ctx)@)
                },
            },
    {
        let flow = match result {
            Ok(flow) => flow,
            Err(cause) => {
                let mut reason = String::from_str("stage '");
                reason.append(name);
                reason.append("' failed: ");
                reason.append(cause.as_str());
                ctx.mark_dlq(reason.as_str());
                StageFlow::Stop
            },
        };
        if flow == StageFlow::Stop {
            return self.conclude(ctx);
        }
        let last: usize = self.stages.len() - 1;
        if i < last {
            RunnerStep::Stage(i + 1)
        } else {
            self.conclude(ctx)
        }
    }
}

/// A message that is marked, by whatever stage and for whatever reason, ends in
/// the failure stage, if there is one, and one that is not marked does not.
pub proof fn law_marked_messages_end_in_the_failure_stage<S>(
    runner: PipelineRunner<S>,
    ctx: ContextView,
    reason: Seq<char>,
)
    ensures
        runner.spec_failure_stage() is Some ==> runner.conclusion(ctx.marked_dlq(reason))
            == RunnerStep::FailureStage,
        runner.spec_failure_stage() is None ==> runner.conclusion(ctx.marked_dlq(reason))
            == RunnerStep::Unhandled,
        ctx.dlq_reason is None ==> runner.conclusion(ctx) == RunnerStep::Done,
{
}

/// The stages run one after the other: behind a stage that says to go on comes
/// the one with the next number, and none comes behind the last one, nor behind
/// one that says to stop. What is marked by then ends in the failure stage, if
/// there is one.
pub proof fn law_stages_run_in_order<S>(
    runner: PipelineRunner<S>,
    i: nat,
    flow: StageFlow,
    ctx: ContextView,
)
    requires
        i < runner.spec_stages().len() <= usize::MAX,
    ensures
        flow is Continue && i < runner.spec_stages().len() - 1 ==> (runner.step_after(i, flow, ctx)
            matches RunnerStep::Stage(next) && next == i + 1),
        flow is Stop || i == runner.spec_stages().len() - 1 ==> {
            &&& !(runner.step_after(i, flow, ctx) is Stage)
            &&& runner.step_after(i, flow, ctx) is Done <==> ctx.dlq_reason is None
            &&& runner.step_after(i, flow, ctx) is FailureStage <==> ctx.dlq_reason is Some
                && runner.spec_failure_stage() is Some
        },
{
}

/// Every message starts with the first stage, if there is one.
pub proof fn law_messages_start_with_the_first_stage<S>(
    runner: PipelineRunner<S>,
    ctx: PipelineContext,
    step: RunnerStep,
)
    requires
        call_ensures(PipelineRunner::<S>::start, (&runner, &ctx), step),
    ensures
        runner.spec_stages().len() > 0 ==> step == RunnerStep::Stage(0),
        runner.spec_stages().len() == 0 ==> !(step is Stage),
{
}

/// A stage that failed marks the message, unless it was marked before, and no
/// further stage runs; one that did not fail leaves the message to itself.
pub proof fn law_failed_stages_stop_the_pipeline<S>(
    runner: PipelineRunner<S>,
    i: usize,
    name: &str,
    result: Result<StageFlow, String>,
    ctx: &mut PipelineContext,
    step: RunnerStep,
)
    requires
        i < runner.spec_stages().len() <= usize::MAX,
        call_ensures(PipelineRunner::<S>::after_stage, (&runner, i, name, result, ctx), step),
    ensures
        result is Err ==> final(ctx)@.dlq_reason is Some && !(step is Stage) && !(step is Done),
        result is Err && old(ctx)@.dlq_reason is Some ==> final(ctx)@ == old(ctx)@,
        result is Ok ==> final(ctx)@ == old(ctx)@,
        step is Stage <==> (result matches Ok(flow) && flow is Continue && i + 1
            < runner.spec_stages().len()),
        step matches RunnerStep::Stage(next) ==> next == i + 1,
        step is Done ==> final(ctx)@.dlq_reason is None,
{
}

/// A pipeline runs the stages that were added, in their order, and has the failure
/// stage that was given last.
pub proof fn law_stages_are_kept_in_order<S>(
    runner: PipelineRunner<S>,
    stage: S,
    longer: PipelineRunner<S>,
    failure: S,
    with_failure: PipelineRunner<S>,
    i: usize,
    found: Option<&S>,
)
    requires
        call_ensures(PipelineRunner::<S>::add_stage, (runner, stage), longer),
        call_ensures(PipelineRunner::<S>::with_failure_stage, (longer, failure), with_failure),
        call_ensures(PipelineRunner::<S>::stage, (&with_failure, i), found),
    ensures
        i < runner.spec_stages().len() ==> (found matches Some(s) && *s == runner.spec_stages()[
            i as int
        ]),
        i == runner.spec_stages().len() ==> (found matches Some(s) && *s == stage),
        i > runner.spec_stages().len() ==> found is None,
        with_failure.spec_failure_stage() == Some(failure),
{
}

} // verus!
