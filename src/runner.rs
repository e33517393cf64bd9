use vstd::prelude::*;

use crate::chars::words;
use crate::config::{AgentConfig, AgentDefaults, DomainRuntimeConfig};
use crate::domain::{AgentKind, StepMetrics, StepStatus, WaitState, WorkItem, WorkflowContext};
use crate::error::Error;
use crate::ports::{Clock, CommandRunner, FileSystem, LlmClient, PromptRenderer, TelemetrySink};
use crate::red_flags::RedFlagPipeline;
use crate::tasks::{
    ApplyVerifyTask, DecompositionTask, DecompositionVoteTask, MicroTask, NextAction,
    SolutionVoteTask, SolveTask, TaskEffect, TaskResult,
};
use crate::text::decimal_chars;

verus! {

/// Most work items one `execute` call processes before it gives up with a `System` error.
pub const WORK_ITEM_LIMIT: usize = 1000000;

/// The trigger of the pauses that `step_by_step` asks for.
pub open spec fn checkpoint_trigger() -> Seq<char> {
    "step_by_step_checkpoint"@
}

#[derive(Debug, Clone, Copy)]
pub struct RunnerOptions {
    pub default_samples: usize,
    pub default_k: usize,
    pub adaptive_k: bool,
    pub max_decomposition_depth: usize,
    pub min_words_for_decomposition: usize,
    pub human_red_flag_threshold: usize,
    pub human_resample_threshold: usize,
    pub human_low_margin_threshold: usize,
    pub step_by_step: bool,
}

impl RunnerOptions {
    /// Options from the command line: at least one sample and a margin of at least one; depth
    /// 2, eight words to decompose, and four red flags or resamples before a pause.
    pub fn from_cli(
        samples: usize,
        k: usize,
        adaptive_k: bool,
        step_by_step: bool,
        human_low_margin_threshold: usize,
    ) -> (r: Self)
        ensures
            r.default_samples == if samples >= 1 {
                samples
            } else {
                1
            },
            r.default_k == if k >= 1 {
                k
            } else {
                1
            },
            r.adaptive_k == adaptive_k,
            r.max_decomposition_depth == 2,
            r.min_words_for_decomposition == 8,
            r.human_red_flag_threshold == 4,
            r.human_resample_threshold == 4,
            r.human_low_margin_threshold == human_low_margin_threshold,
            r.step_by_step == step_by_step,
    {
        RunnerOptions {
            default_samples: if samples >= 1 {
                samples
            } else {
                1
            },
            default_k: if k >= 1 {
                k
            } else {
                1
            },
            adaptive_k,
            max_decomposition_depth: 2,
            min_words_for_decomposition: 8,
            human_red_flag_threshold: 4,
            human_resample_threshold: 4,
            human_low_margin_threshold,
            step_by_step,
        }
    }
}

impl Default for RunnerOptions {
    fn default() -> (r: Self)
        ensures
            r.default_samples == 2,
            r.default_k == 2,
            !r.adaptive_k,
            r.max_decomposition_depth == 2,
            r.min_words_for_decomposition == 8,
            r.human_red_flag_threshold == 4,
            r.human_resample_threshold == 4,
            r.human_low_margin_threshold == 1,
            !r.step_by_step,
    {
        RunnerOptions {
            default_samples: 2,
            default_k: 2,
            adaptive_k: false,
            max_decomposition_depth: 2,
            min_words_for_decomposition: 8,
            human_red_flag_threshold: 4,
            human_resample_threshold: 4,
            human_low_margin_threshold: 1,
            step_by_step: false,
        }
    }
}

#[derive(Debug, Clone)]
pub enum RunnerOutcome {
    Completed,
    Paused(WaitState),
}

/// What a pause leaves in the context: the wait recorded, and, unless it is a checkpoint, the
/// paused step waiting on input with its retry item at the front of the queue.
pub open spec fn paused_well(ctx: WorkflowContext, w: WaitState) -> bool {
    &&& ctx.wait_state == Some(w)
    &&& w.step_id < ctx.steps@.len()
    &&& w.trigger@ != checkpoint_trigger() ==> {
        &&& ctx.work_queue@.len() > 0
        &&& ctx.work_queue@[0].target() == w.step_id
        &&& ctx.steps@[w.step_id as int].status == StepStatus::WaitingOnInput
    }
}

/// The item a pause puts back at the front of the queue, by its trigger: the sampling item
/// itself after a sampling trigger, and the sampling that feeds the vote after a low margin.
pub open spec fn trigger_retry(trigger: Seq<char>, step: usize) -> Option<WorkItem> {
    if trigger == "decomposition sampling_red_flags"@ || trigger == "decomposition sampling_resamples"@
        || trigger == "decomposition vote_low_margin"@ {
        Some(WorkItem::Decomposition { step_id: step })
    } else if trigger == "solver sampling_red_flags"@ || trigger == "solver sampling_resamples"@
        || trigger == "solution vote_low_margin"@ {
        Some(WorkItem::Solve { step_id: step })
    } else {
        None
    }
}

/// The work that follows a decomposition vote: per child, its decomposition when the recursion
/// rule allows, else its solving.
pub open spec fn child_items(ids: Seq<usize>, steps: Seq<crate::domain::WorkflowStep>, o: RunnerOptions) -> Seq<WorkItem> {
    ids.map_values(|c: usize| if recursion_rule(o, steps[c as int].depth, steps[c as int].description@) {
        WorkItem::Decomposition { step_id: c }
    } else {
        WorkItem::Solve { step_id: c }
    })
}

proof fn lemma_trigger_names(step: usize)
    ensures
        "decomposition sampling"@ + "_red_flags"@ == "decomposition sampling_red_flags"@,
        "decomposition sampling"@ + "_resamples"@ == "decomposition sampling_resamples"@,
        "decomposition vote"@ + "_low_margin"@ == "decomposition vote_low_margin"@,
        "solver sampling"@ + "_red_flags"@ == "solver sampling_red_flags"@,
        "solver sampling"@ + "_resamples"@ == "solver sampling_resamples"@,
        "solution vote"@ + "_low_margin"@ == "solution vote_low_margin"@,
        trigger_retry("solver sampling_red_flags"@, step) == Some(WorkItem::Solve { step_id: step }),
        trigger_retry("solver sampling_resamples"@, step) == Some(WorkItem::Solve { step_id: step }),
        trigger_retry("solution vote_low_margin"@, step) == Some(WorkItem::Solve { step_id: step }),
        trigger_retry("task_requested_input"@, step) is None,
        trigger_retry(checkpoint_trigger(), step) is None,
{
    reveal_strlit("decomposition sampling");
    reveal_strlit("decomposition vote");
    reveal_strlit("solver sampling");
    reveal_strlit("solution vote");
    reveal_strlit("_red_flags");
    reveal_strlit("_resamples");
    reveal_strlit("_low_margin");
    reveal_strlit("decomposition sampling_red_flags");
    reveal_strlit("decomposition sampling_resamples");
    reveal_strlit("decomposition vote_low_margin");
    reveal_strlit("solver sampling_red_flags");
    reveal_strlit("solver sampling_resamples");
    reveal_strlit("solution vote_low_margin");
    reveal_strlit("task_requested_input");
    reveal_strlit("step_by_step_checkpoint");
    assert("decomposition sampling"@ + "_red_flags"@ =~= "decomposition sampling_red_flags"@);
    assert("decomposition sampling"@ + "_resamples"@ =~= "decomposition sampling_resamples"@);
    assert("decomposition vote"@ + "_low_margin"@ =~= "decomposition vote_low_margin"@);
    assert("solver sampling"@ + "_red_flags"@ =~= "solver sampling_red_flags"@);
    assert("solver sampling"@ + "_resamples"@ =~= "solver sampling_resamples"@);
    assert("solution vote"@ + "_low_margin"@ =~= "solution vote_low_margin"@);
    assert("solver sampling_red_flags"@[0] != "decomposition sampling_red_flags"@[0]);
    assert("solver sampling_red_flags"@[0] != "decomposition sampling_resamples"@[0]);
    assert("solver sampling_red_flags"@[0] != "decomposition vote_low_margin"@[0]);
    assert("solver sampling_resamples"@[0] != "decomposition sampling_red_flags"@[0]);
    assert("solver sampling_resamples"@[0] != "decomposition sampling_resamples"@[0]);
    assert("solver sampling_resamples"@[0] != "decomposition vote_low_margin"@[0]);
    assert("solution vote_low_margin"@[0] != "decomposition sampling_red_flags"@[0]);
    assert("solution vote_low_margin"@[0] != "decomposition sampling_resamples"@[0]);
    assert("solution vote_low_margin"@[0] != "decomposition vote_low_margin"@[0]);
    assert("task_requested_input"@[0] != "decomposition sampling_red_flags"@[0]);
    assert("task_requested_input"@[0] != "decomposition sampling_resamples"@[0]);
    assert("task_requested_input"@[0] != "decomposition vote_low_margin"@[0]);
    assert("task_requested_input"@[0] != "solver sampling_red_flags"@[0]);
    assert("task_requested_input"@[0] != "solver sampling_resamples"@[0]);
    assert("task_requested_input"@[0] != "solution vote_low_margin"@[0]);
    assert("step_by_step_checkpoint"@[0] != "decomposition sampling_red_flags"@[0]);
    assert("step_by_step_checkpoint"@[0] != "decomposition sampling_resamples"@[0]);
    assert("step_by_step_checkpoint"@[0] != "decomposition vote_low_margin"@[0]);
    assert("step_by_step_checkpoint"@[1] != "solver sampling_red_flags"@[1]);
    assert("step_by_step_checkpoint"@[1] != "solver sampling_resamples"@[1]);
    assert("step_by_step_checkpoint"@[1] != "solution vote_low_margin"@[1]);
}

/// The margin an agent votes with before adaptation: its own, else the default, at least one.
pub open spec fn base_k_of(agent_k: Option<usize>, default_k: usize) -> usize {
    let raw = match agent_k {
        Some(k) => k,
        None => default_k,
    };
    if raw >= 1 {
        raw
    } else {
        1
    }
}

/// `stage` followed by `suffix`.
fn stage_text(stage: &str, suffix: &str) -> (r: String)
    ensures
        r@ == stage@ + suffix@,
{
    String::from_str(stage).concat(suffix)
}

fn number_text(n: usize) -> (r: String) {
    crate::chars::string_of(&decimal_chars(n))
}

/// The recursion rule: a step is decomposed further when it is shallower than the depth limit
/// and its description has at least the minimum number of words; otherwise it is solved.
pub open spec fn recursion_rule(options: RunnerOptions, depth: usize, description: Seq<char>) -> bool {
    depth < options.max_decomposition_depth && words(description).len()
        >= options.min_words_for_decomposition
}

/// Schedules work items over the context, runs the matching tasks, and pauses where a human
/// should look.
pub struct FlowRunner<L, R, F, S, K, T> {
    pub domains: Vec<DomainRuntimeConfig>,
    pub llm: Option<L>,
    pub renderer: R,
    pub options: RunnerOptions,
    pub file_system: F,
    pub commands: S,
    pub clock: K,
    pub telemetry: T,
}

impl<
    L: LlmClient,
    R: PromptRenderer,
    F: FileSystem,
    S: CommandRunner,
    K: Clock,
    T: TelemetrySink,
> FlowRunner<L, R, F, S, K, T> {
    pub fn new(
        domains: Vec<DomainRuntimeConfig>,
        llm: Option<L>,
        renderer: R,
        options: RunnerOptions,
        file_system: F,
        commands: S,
        clock: K,
        telemetry: T,
    ) -> (r: Self)
        ensures
            r.domains == domains,
            r.llm == llm,
            r.options == options,
    {
        FlowRunner { domains, llm, renderer, options, file_system, commands, clock, telemetry }
    }

    /// The position of the domain named `name`, the first one of that name.
    pub fn find_domain(&self, name: &String) -> (r: Option<usize>)
        ensures
            r matches Some(i) ==> i < self.domains@.len() && self.domains@[i as int].name@ == name@,
            r is None ==> forall|i: int|
                0 <= i < self.domains@.len() ==> (#[trigger] self.domains@[i]).name@ != name@,
    {
        let mut i: usize = 0;
        while i < self.domains.len()
            invariant
                i <= self.domains.len(),
                forall|j: int| 0 <= j < i ==> (#[trigger] self.domains@[j]).name@ != name@,
            decreases self.domains.len() - i,
        {
            if crate::red_flags::same_text(self.domains[i].name.as_str(), name.as_str()) {
                return Some(i);
            }
            i = i + 1;
        }
        None
    }

    /// The run-time settings of an agent of the domain, the run's counts as defaults.
    pub fn agent_config(&self, domain: &DomainRuntimeConfig, kind: AgentKind) -> (r: AgentConfig)
        ensures
            r.kind == kind,
            r.samples >= 1,
            r.prompt_template == domain.settings_of(kind).prompt_template,
            r.model == domain.settings_of(kind).model,
            r.samples == (match domain.settings_of(kind).samples {
                Some(s) => if s >= 1 { s } else { 1 },
                None => if self.options.default_samples >= 1 { self.options.default_samples } else { 1 },
            }),
            r.k == Some(match domain.settings_of(kind).k {
                Some(k) => k,
                None => self.options.default_k,
            }),
            r.red_flaggers is Some <==> domain.settings_of(kind).red_flaggers is Some,
            r.red_flaggers matches Some(x) ==> domain.settings_of(kind).red_flaggers matches Some(y)
                && x@ == y@,
    {
        let defaults = AgentDefaults {
            samples: self.options.default_samples,
            k: self.options.default_k,
        };
        let settings = match kind {
            AgentKind::Decomposition => &domain.decomposition,
            AgentKind::DecompositionDiscriminator => &domain.decomposition_discriminator,
            AgentKind::Solver => &domain.solver,
            AgentKind::SolutionDiscriminator => &domain.solution_discriminator,
        };
        settings.as_agent_config(kind, &defaults)
    }

    /// Whether a step is decomposed further rather than solved.
    pub fn should_recurse(&self, ctx: &WorkflowContext, step_id: usize) -> (r: bool)
        ensures
            r == (step_id < ctx.steps@.len() && recursion_rule(
                self.options,
                ctx.steps@[step_id as int].depth,
                ctx.steps@[step_id as int].description@,
            )),
    {
        if step_id >= ctx.steps.len() {
            return false;
        }
        let step = &ctx.steps[step_id];
        if step.depth >= self.options.max_decomposition_depth {
            return false;
        }
        crate::chars::word_count(step.description.as_str())
            >= self.options.min_words_for_decomposition
    }

    /// The vote margin `k` for an agent: its own, else the run's default, at least one; moved
    /// by the kind's recent margins when adaptive.
    pub fn resolve_k(&self, kind: AgentKind, agent: &AgentConfig, ctx: &WorkflowContext) -> (r: usize)
        requires
            ctx.wf(),
        ensures
            r >= 1,
            !self.options.adaptive_k ==> r == (match agent.k {
                Some(k) => if k >= 1 {
                    k
                } else {
                    1
                },
                None => if self.options.default_k >= 1 {
                    self.options.default_k
                } else {
                    1
                },
            }),
            self.options.adaptive_k && base_k_of(agent.k, self.options.default_k) < usize::MAX ==> r == (
            match ctx.metrics.ring(kind) {
                Some(stats) => crate::vote::adapted_k(
                    base_k_of(agent.k, self.options.default_k) as nat,
                    stats.recent_margins@,
                    crate::vote::sum_margins(stats.recent_margins@),
                ),
                None => base_k_of(agent.k, self.options.default_k) as nat,
            }),
    {
        let raw = match agent.k {
            Some(k) => k,
            None => self.options.default_k,
        };
        let base = if raw >= 1 {
            raw
        } else {
            1
        };
        if !self.options.adaptive_k || base == usize::MAX {
            return base;
        }
        match ctx.metrics().vote_stats(kind) {
            Some(stats) => crate::vote::resolve_k(base, true, &stats.recent_margins),
            None => base,
        }
    }

    /// A pause after sampling: `<stage>_red_flags` once the step has as many red flags as the
    /// (positive) threshold, else `<stage>_resamples` once it has as many resamples.
    pub fn check_sampling_triggers(&self, ctx: &WorkflowContext, step_id: usize, stage: &str) -> (r:
        Option<WaitState>)
        ensures
            r matches Some(w) ==> w.step_id == step_id,
            step_id >= ctx.metrics.steps@.len() ==> r is None,
            step_id < ctx.metrics.steps@.len() ==> {
                let m = ctx.metrics.steps@[step_id as int];
                let flagged = self.options.human_red_flag_threshold > 0 && m.red_flags@.len()
                    >= self.options.human_red_flag_threshold;
                let resampled = self.options.human_resample_threshold > 0 && m.resamples
                    >= self.options.human_resample_threshold;
                &&& r is Some <==> flagged || resampled
                &&& flagged ==> (r matches Some(w) && w.trigger@ == stage@ + "_red_flags"@)
                &&& !flagged && resampled ==> (r matches Some(w) && w.trigger@ == stage@
                    + "_resamples"@)
            },
    {
        let m: &StepMetrics = match ctx.step_metrics(step_id) {
            Some(m) => m,
            None => {
                return None;
            },
        };
        let threshold = self.options.human_red_flag_threshold;
        if threshold > 0 && m.red_flags.len() >= threshold {
            let details = number_text(m.red_flags.len()).concat(
                " samples were red-flagged during ",
            ).concat(stage);
            return Some(
                WaitState { step_id, trigger: stage_text(stage, "_red_flags"), details },
            );
        }
        let threshold = self.options.human_resample_threshold;
        if threshold > 0 && m.resamples >= threshold {
            let details = number_text(m.resamples).concat(
                " resample attempts exceeded the allowed budget during ",
            ).concat(stage);
            return Some(
                WaitState { step_id, trigger: stage_text(stage, "_resamples"), details },
            );
        }
        None
    }

    /// A pause after a vote: `<stage>_low_margin` when the (positive) threshold is set and the
    /// step's margin is at most the threshold.
    pub fn check_vote_triggers(&self, ctx: &WorkflowContext, step_id: usize, stage: &str) -> (r:
        Option<WaitState>)
        ensures
            r matches Some(w) ==> w.step_id == step_id && w.trigger@ == stage@ + "_low_margin"@,
            r is Some <==> (step_id < ctx.metrics.steps@.len()
                && self.options.human_low_margin_threshold > 0
                && (ctx.metrics.steps@[step_id as int].vote_margin matches Some(m)
                && m <= self.options.human_low_margin_threshold)),
    {
        let m: &StepMetrics = match ctx.step_metrics(step_id) {
            Some(m) => m,
            None => {
                return None;
            },
        };
        let threshold = self.options.human_low_margin_threshold;
        if threshold == 0 {
            return None;
        }
        match m.vote_margin {
            Some(margin) => {
                if margin <= threshold {
                    let details = String::from_str("Vote margin (").concat(
                        number_text(margin).as_str(),
                    ).concat(") during ").concat(stage).concat(" fell below threshold");
                    Some(WaitState { step_id, trigger: stage_text(stage, "_low_margin"), details })
                } else {
                    None
                }
            },
            None => None,
        }
    }

    /// Puts `retry` at the front of the queue and records the wait, so that resuming starts
    /// from `retry`.
    pub fn pause_with(ctx: &mut WorkflowContext, wait: WaitState, retry: WorkItem) -> (r: RunnerOutcome)
        requires
            old(ctx).wf(),
            wait.step_id < old(ctx).steps@.len(),
            retry.target() == wait.step_id,
        ensures
            crate::domain::descriptions_kept(old(ctx).steps@, final(ctx).steps@),
            final(ctx).wf(),
            final(ctx).steps@.len() == old(ctx).steps@.len(),
            final(ctx).work_queue@ == seq![retry] + old(ctx).work_queue@,
            final(ctx).wait_state == Some(wait),
            final(ctx).steps@[wait.step_id as int].status == StepStatus::WaitingOnInput,
            final(ctx).root_step_id == old(ctx).root_step_id,
            r matches RunnerOutcome::Paused(w) && w == wait && paused_well(*final(ctx), w),
    {
        ctx.enqueue_work_front(retry);
        let WaitState { step_id, trigger, details } = wait;
        ctx.set_wait_state(step_id, trigger.clone(), details.clone());
        RunnerOutcome::Paused(WaitState { step_id, trigger, details })
    }

    /// Records a checkpoint on `step_id` and pauses there.
    fn checkpoint(ctx: &mut WorkflowContext, step_id: usize, details: &str) -> (r: RunnerOutcome)
        requires
            old(ctx).wf(),
            step_id < old(ctx).steps@.len(),
        ensures
            crate::domain::descriptions_kept(old(ctx).steps@, final(ctx).steps@),
            final(ctx).wf(),
            final(ctx).steps@.len() == old(ctx).steps@.len(),
            r matches RunnerOutcome::Paused(w) && paused_well(*final(ctx), w) && w.trigger@
                == checkpoint_trigger(),
    {
        proof {
            reveal_strlit("step_by_step_checkpoint");
        }
        let trigger = String::from_str("step_by_step_checkpoint");
        let details = String::from_str(details);
        ctx.set_checkpoint(step_id, trigger.clone(), details.clone());
        RunnerOutcome::Paused(WaitState { step_id, trigger, details })
    }

    /// The runner's answer to a task's requested action: a pause for `WaitForInput`, nothing for
    /// `Continue` and `End`; `GoTo` and `Error` are not supported and end the run with an error.
    fn handle_next_action(
        ctx: &mut WorkflowContext,
        action: &NextAction,
        item: WorkItem,
    ) -> (r: Result<Option<RunnerOutcome>, Error>)
        requires
            old(ctx).wf(),
            item.target() < old(ctx).steps@.len(),
        ensures
            crate::domain::descriptions_kept(old(ctx).steps@, final(ctx).steps@),
            final(ctx).wf(),
            final(ctx).steps@.len() == old(ctx).steps@.len(),
            r matches Ok(None) ==> *final(ctx) == *old(ctx),
            r matches Ok(Some(o)) ==> (o matches RunnerOutcome::Paused(w) && paused_well(
                *final(ctx),
                w,
            ) && w.trigger@ != checkpoint_trigger() && w.trigger@ == "task_requested_input"@),
            final(ctx).root_step_id == old(ctx).root_step_id,
    {
        match action {
            NextAction::Continue | NextAction::End => Ok(None),
            NextAction::WaitForInput => {
                proof {
                    reveal_strlit("task_requested_input");
                    reveal_strlit("step_by_step_checkpoint");
                    assert("task_requested_input"@[0] != "step_by_step_checkpoint"@[0]);
                }
                let wait = WaitState {
                    step_id: item.step_id(),
                    trigger: String::from_str("task_requested_input"),
                    details: String::from_str("Task requested human approval before continuing"),
                };
                Ok(Some(Self::pause_with(ctx, wait, item)))
            },
            NextAction::GoTo(_) => Err(
                Error::InvalidState(String::from_str("GoTo transitions are not supported")),
            ),
            NextAction::Error(msg) => Err(
                Error::InvalidState(String::from_str("Task reported error: ").concat(msg.as_str())),
            ),
        }
    }

    /// The red-flag pipeline of an agent: its own validators, else the domain's.
    fn pipeline_for(agent: &AgentConfig, domain: &DomainRuntimeConfig) -> (r: RedFlagPipeline) {
        match &agent.red_flaggers {
            Some(own) => RedFlagPipeline::from_configs(own),
            None => RedFlagPipeline::from_configs(&domain.red_flaggers),
        }
    }

    /// Runs one work item and routes its effect. `Some` is a pause that ends the run.
    fn run_item(
        &self,
        ctx: &mut WorkflowContext,
        item: WorkItem,
        llm: &L,
        domain: &DomainRuntimeConfig,
    ) -> (r: Result<Option<RunnerOutcome>, Error>)
        requires
            old(ctx).wf(),
            item.target() < old(ctx).steps@.len(),
        ensures
            crate::domain::descriptions_kept(old(ctx).steps@, final(ctx).steps@),
            final(ctx).wf(),
            final(ctx).steps@.len() >= old(ctx).steps@.len(),
            final(ctx).root_step_id == old(ctx).root_step_id,
            r matches Ok(Some(o)) ==> (o matches RunnerOutcome::Paused(w) && paused_well(
                *final(ctx),
                w,
            ) && (trigger_retry(w.trigger@, w.step_id) matches Some(it) ==> final(ctx).work_queue@[0] == it)),
            r matches Ok(None) ==> final(ctx).wait_state == old(ctx).wait_state,
            r matches Ok(None) && item is Decomposition ==> final(ctx).work_queue@ == seq![
                WorkItem::DecompositionVote { step_id: item.target() }] + old(ctx).work_queue@,
            r matches Ok(None) && item is Solve ==> final(ctx).work_queue@ == seq![
                WorkItem::SolutionVote { step_id: item.target() }] + old(ctx).work_queue@,
            r matches Ok(None) && item is SolutionVote ==> final(ctx).work_queue@ == seq![
                WorkItem::ApplyVerify { step_id: item.target() }] + old(ctx).work_queue@,
            r matches Ok(None) && item is ApplyVerify ==> final(ctx).work_queue@ == old(ctx).work_queue@,
            r matches Ok(None) && item is DecompositionVote ==> exists|ids: Seq<usize>|
                (ids.len() == 0 && final(ctx).work_queue@ == old(ctx).work_queue@.push(
                    WorkItem::Solve { step_id: item.target() })) || (ids.len() > 0 && final(ctx).work_queue@
                    == old(ctx).work_queue@ + child_items(ids, final(ctx).steps@, self.options)),
    {
        proof {
            lemma_trigger_names(item.target());
        }
        match item {
            WorkItem::Decomposition { step_id } => {
                let step_prompt = ctx.steps[step_id].description.clone();
                let agent = self.agent_config(domain, AgentKind::Decomposition);
                let pipeline = Self::pipeline_for(&agent, domain);
                let task = DecompositionTask::new(
                    step_id,
                    step_prompt,
                    agent,
                    llm,
                    &pipeline,
                    &self.renderer,
                    &self.clock,
                );
                let result: TaskResult = task.run(ctx)?;
                if let Some(o) = Self::handle_next_action(ctx, &result.action, item)? {
                    return Ok(Some(o));
                }
                if let Some(wait) = self.check_sampling_triggers(ctx, step_id, "decomposition sampling") {
                    return Ok(Some(Self::pause_with(ctx, wait, item)));
                }
                ctx.enqueue_work_front(WorkItem::DecompositionVote { step_id });
                Ok(None)
            },
            WorkItem::DecompositionVote { step_id } => {
                let agent = self.agent_config(domain, AgentKind::DecompositionDiscriminator);
                let vote_k = self.resolve_k(AgentKind::DecompositionDiscriminator, &agent, ctx);
                let task = DecompositionVoteTask::new(
                    step_id,
                    agent,
                    llm,
                    vote_k,
                    &self.renderer,
                    &self.clock,
                );
                let result: TaskResult = task.run(ctx)?;
                if let Some(o) = Self::handle_next_action(ctx, &result.action, item)? {
                    return Ok(Some(o));
                }
                if let Some(wait) = self.check_vote_triggers(ctx, step_id, "decomposition vote") {
                    return Ok(Some(Self::pause_with(ctx, wait, WorkItem::Decomposition { step_id })));
                }
                if let TaskEffect::SpawnedSteps(children) = &result.effect {
                    let ghost q0 = ctx.work_queue@;
                    let ghost steps0 = ctx.steps@;
                    if children.len() == 0 {
                        ctx.enqueue_work(WorkItem::Solve { step_id });
                        proof {
                            let ids = Seq::<usize>::empty();
                            assert(ids.len() == 0 && ctx.work_queue@ == q0.push(WorkItem::Solve { step_id }));
                        }
                    } else {
                        let mut i: usize = 0;
                        assert(children@.take(0) =~= Seq::<usize>::empty());
                        assert(q0 + child_items(children@.take(0), steps0, self.options) =~= q0);
                        while i < children.len()
                            invariant
                                ctx.wf(),
                                step_id < ctx.steps@.len(),
                                forall|j: int|
                                    0 <= j < children@.len() ==> (#[trigger] children@[j])
                                        < ctx.steps@.len(),
                                ctx.steps@.len() >= old(ctx).steps@.len(),
                                ctx.steps@ == steps0,
                                ctx.wait_state == old(ctx).wait_state,
                                ctx.root_step_id == old(ctx).root_step_id,
                                ctx.work_queue@ == q0 + child_items(children@.take(i as int), steps0, self.options),
                                i <= children.len(),
                            decreases children.len() - i,
                        {
                            let child = children[i];
                            let next = if self.should_recurse(ctx, child) {
                                WorkItem::Decomposition { step_id: child }
                            } else {
                                WorkItem::Solve { step_id: child }
                            };
                            ctx.enqueue_work(next);
                            proof {
                                assert(children@.take(i + 1) =~= children@.take(i as int).push(child));
                                assert(child_items(children@.take(i + 1), steps0, self.options) =~= child_items(
                                    children@.take(i as int), steps0, self.options).push(next));
                            }
                            i = i + 1;
                        }
                        proof {
                            assert(children@.take(children@.len() as int) =~= children@);
                            assert(children@.len() > 0 && ctx.work_queue@ == q0 + child_items(children@, ctx.steps@, self.options));
                        }
                    }
                }
                if self.options.step_by_step {
                    return Ok(
                        Some(Self::checkpoint(ctx, step_id, "Decomposition plan ready for review")),
                    );
                }
                Ok(None)
            },
            WorkItem::Solve { step_id } => {
                let agent = self.agent_config(domain, AgentKind::Solver);
                let pipeline = Self::pipeline_for(&agent, domain);
                let task = SolveTask::new(step_id, agent, llm, &pipeline, &self.renderer, &self.clock);
                let result: TaskResult = task.run(ctx)?;
                if let Some(o) = Self::handle_next_action(ctx, &result.action, item)? {
                    return Ok(Some(o));
                }
                if let Some(wait) = self.check_sampling_triggers(ctx, step_id, "solver sampling") {
                    return Ok(Some(Self::pause_with(ctx, wait, item)));
                }
                if let TaskEffect::SolutionsReady { .. } = &result.effect {
                    ctx.enqueue_work_front(WorkItem::SolutionVote { step_id });
                }
                Ok(None)
            },
            WorkItem::SolutionVote { step_id } => {
                let agent = self.agent_config(domain, AgentKind::SolutionDiscriminator);
                let vote_k = self.resolve_k(AgentKind::SolutionDiscriminator, &agent, ctx);
                let task = SolutionVoteTask::new(step_id, agent, llm, vote_k, &self.renderer, &self.clock);
                let result: TaskResult = task.run(ctx)?;
                if let Some(o) = Self::handle_next_action(ctx, &result.action, item)? {
                    return Ok(Some(o));
                }
                if let Some(wait) = self.check_vote_triggers(ctx, step_id, "solution vote") {
                    return Ok(Some(Self::pause_with(ctx, wait, WorkItem::Solve { step_id })));
                }
                if let TaskEffect::WinnerSelected { step_id: winner_step } = &result.effect {
                    ctx.enqueue_work_front(WorkItem::ApplyVerify { step_id: *winner_step });
                }
                Ok(None)
            },
            WorkItem::ApplyVerify { step_id } => {
                let task = ApplyVerifyTask::new(
                    step_id,
                    domain.applier.clone(),
                    domain.verifier.clone(),
                    &self.file_system,
                    &self.commands,
                    &self.clock,
                );
                let result: TaskResult = task.run(ctx)?;
                if let Some(o) = Self::handle_next_action(ctx, &result.action, item)? {
                    return Ok(Some(o));
                }
                if let TaskEffect::StepCompleted { step_id: done } = &result.effect {
                    if self.options.step_by_step {
                        return Ok(
                            Some(
                                Self::checkpoint(
                                    ctx,
                                    *done,
                                    "Step finished execution. Resume to process next pending work.",
                                ),
                            ),
                        );
                    }
                }
                Ok(None)
            },
        }
    }

    fn emit(&self, ctx: &WorkflowContext, event: &str, extra: Vec<(String, String)>) {
        let mut props: Vec<(String, String)> = Vec::new();
        if ctx.session_id.as_str().unicode_len() > 0 {
            props.push((String::from_str("session_id"), ctx.session_id.clone()));
        }
        props.push((String::from_str("domain"), ctx.domain.clone()));
        let mut extra = extra;
        props.append(&mut extra);
        self.telemetry.record_event(&String::from_str(event), props);
    }

    fn record_outcome(&self, ctx: &WorkflowContext, outcome: &RunnerOutcome) {
        let mut props: Vec<(String, String)> = Vec::new();
        match outcome {
            RunnerOutcome::Completed => {
                props.push((String::from_str("state"), String::from_str("completed")));
            },
            RunnerOutcome::Paused(w) => {
                props.push((String::from_str("state"), String::from_str("paused")));
                props.push((String::from_str("wait_trigger"), w.trigger.clone()));
                props.push((String::from_str("step_id"), number_text(w.step_id)));
            },
        }
        self.emit(ctx, "runner_outcome", props);
    }

    /// Runs the queued work until the queue is empty (`Completed`) or a pause. A run without a
    /// root gets one, with its decomposition queued; an idle run whose root is still pending
    /// queues the root's decomposition again. A task's error fails its step and ends the run.
    /// After a pause other than a checkpoint, the paused step waits on input and its retry item
    /// heads the queue. At most `WORK_ITEM_LIMIT` items are run per call; past that the run
    /// ends with a `System` error and the remaining work stays queued.
    pub fn execute(&self, ctx: &mut WorkflowContext) -> (r: Result<RunnerOutcome, Error>)
        requires
            old(ctx).wf(),
        ensures
            final(ctx).wf(),
            r matches Ok(RunnerOutcome::Completed) ==> final(ctx).work_queue@.len() == 0,
            r matches Ok(RunnerOutcome::Paused(w)) ==> paused_well(*final(ctx), w),
            r matches Ok(RunnerOutcome::Paused(w)) ==> (trigger_retry(w.trigger@, w.step_id) matches Some(it)
                ==> final(ctx).work_queue@[0] == it),
            r matches Ok(RunnerOutcome::Completed) && old(ctx).wait_state is None ==> final(ctx).wait_state is None,
            r is Ok ==> final(ctx).root_step_id == Some(0usize),
            old(ctx).root_step_id is None && r is Ok ==> final(ctx).steps@[0].description == old(ctx).prompt
                && final(ctx).steps@[0].depth == 0 && final(ctx).steps@[0].parent is None,
            crate::domain::descriptions_kept(old(ctx).steps@, final(ctx).steps@),
            old(ctx).root_step_id is Some ==> final(ctx).root_step_id == old(ctx).root_step_id,
            final(ctx).steps@.len() >= old(ctx).steps@.len(),
            self.llm is None ==> r is Err,
            (forall|i: int| 0 <= i < self.domains@.len() ==> (#[trigger] self.domains@[i]).name@
                != old(ctx).domain@) ==> r is Err,
            (self.llm is Some && (exists|i: int| 0 <= i < self.domains@.len() && (#[trigger] self.domains@[i]).name@
                == old(ctx).domain@) && old(ctx).root_step_id is Some
                && old(ctx).work_queue@.len() == 0 && old(ctx).steps@[0].status
                != StepStatus::Pending) ==> (r matches Ok(RunnerOutcome::Completed) && final(ctx).steps@
                == old(ctx).steps@ && final(ctx).wait_state == old(ctx).wait_state),
    {
        if self.llm.is_none() {
            return Err(Error::InvalidState(String::from_str("LLM client required for execution")));
        }
        let llm = match &self.llm {
            Some(l) => l,
            None => {
                return Err(Error::InvalidState(String::from_str("LLM client required for execution")));
            },
        };
        let domain = match self.find_domain(&ctx.domain) {
            Some(i) => &self.domains[i],
            None => {
                return Err(
                    Error::Config(
                        String::from_str("Failed to resolve runtime config for domain ").concat(
                            ctx.domain.as_str(),
                        ),
                    ),
                );
            },
        };
        if ctx.root_step_id().is_none() {
            let root = ctx.ensure_root();
            ctx.enqueue_work(WorkItem::Decomposition { step_id: root });
        }
        if !ctx.has_pending_work() {
            if let Some(root) = ctx.root_step_id() {
                if ctx.steps[root].status == StepStatus::Pending {
                    ctx.enqueue_work(WorkItem::Decomposition { step_id: root });
                }
            }
        }
        let mut start_props: Vec<(String, String)> = Vec::new();
        start_props.push((String::from_str("pending_work"), number_text(ctx.work_queue.len())));
        self.emit(ctx, "runner_execute_start", start_props);
        let ghost idle = old(ctx).root_step_id is Some && old(ctx).work_queue@.len() == 0
            && old(ctx).steps@[0].status != StepStatus::Pending;
        let mut budget: usize = WORK_ITEM_LIMIT;
        loop
            invariant_except_break
                idle ==> budget == WORK_ITEM_LIMIT,
            invariant
                ctx.wf(),
                ctx.root_step_id == Some(0usize),
                crate::domain::descriptions_kept(old(ctx).steps@, ctx.steps@),
                old(ctx).root_step_id is None ==> ctx.steps@[0].description == old(ctx).prompt,
                old(ctx).root_step_id is Some ==> old(ctx).root_step_id == Some(0usize),
                ctx.steps@.len() >= old(ctx).steps@.len(),
                old(ctx).wait_state is None ==> ctx.wait_state is None,
                self.llm is Some,
                exists|i: int| 0 <= i < self.domains@.len() && (#[trigger] self.domains@[i]).name@
                    == old(ctx).domain@,
                idle == (old(ctx).root_step_id is Some && old(ctx).work_queue@.len() == 0
                    && old(ctx).steps@[0].status != StepStatus::Pending),
                idle ==> ctx.steps@ == old(ctx).steps@ && ctx.wait_state == old(ctx).wait_state
                    && ctx.work_queue@.len() == 0,
            ensures
                ctx.wf(),
                ctx.root_step_id == Some(0usize),
                crate::domain::descriptions_kept(old(ctx).steps@, ctx.steps@),
                old(ctx).root_step_id is None ==> ctx.steps@[0].description == old(ctx).prompt,
                ctx.steps@.len() >= old(ctx).steps@.len(),
                old(ctx).wait_state is None ==> ctx.wait_state is None,
                ctx.work_queue@.len() == 0,
                idle ==> ctx.steps@ == old(ctx).steps@ && ctx.wait_state == old(ctx).wait_state,
            decreases budget,
        {
            if budget == 0 && ctx.has_pending_work() {
                return Err(Error::System(String::from_str("Work item limit reached")));
            }
            if budget == 0 {
                break;
            }
            budget = budget - 1;
            match ctx.dequeue_work() {
                None => {
                    break ;
                },
                Some(item) => {
                    let target = item.step_id();
                    match self.run_item(ctx, item, llm, domain) {
                        Err(e) => {
                            ctx.mark_step_status(target, StepStatus::Failed);
                            return Err(e);
                        },
                        Ok(Some(outcome)) => {
                            self.record_outcome(ctx, &outcome);
                            return Ok(outcome);
                        },
                        Ok(None) => {},
                    }
                },
            }
        }
        let outcome = RunnerOutcome::Completed;
        self.record_outcome(ctx, &outcome);
        Ok(outcome)
    }
}

} // verus!
