use vstd::prelude::*;

use crate::chars::{views, words};
use crate::config::AgentConfig;
use crate::domain::{
    descriptions_kept, pushed_ring, AgentKind, DecompositionProposal, RedFlagIncident, StepStatus, WorkflowContext,
    WorkflowMetrics,
};
use crate::error::Error;
use crate::ports::{sample_n, Clock, CommandRunner, FileSystem, LlmClient, PromptRenderer};
use crate::red_flags::{RedFlagMatch, RedFlagPipeline};
use crate::text::{
    enumerate_options, extract_code_content, extract_target_path, extract_xml_files,
    first_file_token, first_vote, parse_subtasks, parse_vote_response, path_is_safe,
    preview_of, preview_sample, subtasks_of, validate_target_path, xml_blocks_from,
    PREVIEW_LIMIT,
};
use crate::vote::{best_other, chosen_index, margin_of, select_winner, tally, vote_counts};

verus! {

/// What the runner does after a task.
#[derive(Debug, Clone, PartialEq, Eq)]
pub enum NextAction {
    Continue,
    WaitForInput,
    GoTo(usize),
    End,
    Error(String),
}

/// What a task produced.
#[derive(Debug, Clone, PartialEq, Eq)]
pub enum TaskEffect {
    Unchanged,
    SpawnedSteps(Vec<usize>),
    SolutionsReady { step_id: usize },
    WinnerSelected { step_id: usize },
    StepCompleted { step_id: usize },
}

impl TaskEffect {
    /// Every step the effect names is below `n`.
    pub open spec fn fits(&self, n: nat) -> bool {
        match *self {
            TaskEffect::Unchanged => true,
            TaskEffect::SpawnedSteps(ids) => forall|i: int|
                0 <= i < ids@.len() ==> (#[trigger] ids@[i]) < n,
            TaskEffect::SolutionsReady { step_id } => step_id < n,
            TaskEffect::WinnerSelected { step_id } => step_id < n,
            TaskEffect::StepCompleted { step_id } => step_id < n,
        }
    }
}

#[derive(Debug, Clone, PartialEq, Eq)]
pub struct TaskResult {
    pub action: NextAction,
    pub effect: TaskEffect,
}

impl TaskResult {
    pub fn continue_with(effect: TaskEffect) -> (r: Self)
        ensures
            r.action == NextAction::Continue,
            r.effect == effect,
    {
        TaskResult { action: NextAction::Continue, effect }
    }
}

impl Default for TaskResult {
    fn default() -> (r: Self)
        ensures
            r.action == NextAction::Continue,
            r.effect == TaskEffect::Unchanged,
    {
        TaskResult::continue_with(TaskEffect::Unchanged)
    }
}

/// What every task keeps of the context: a well-formed context, no step lost, the queue
/// and the wait state untouched, and an effect that names existing steps.
pub open spec fn task_post(
    old: WorkflowContext,
    new: WorkflowContext,
    r: Result<TaskResult, Error>,
) -> bool {
    &&& new.wf()
    &&& new.steps@.len() >= old.steps@.len()
    &&& descriptions_kept(old.steps@, new.steps@)
    &&& new.work_queue == old.work_queue
    &&& new.wait_state == old.wait_state
    &&& new.dry_run == old.dry_run
    &&& r matches Ok(t) ==> t.effect.fits(new.steps@.len())
}

/// One unit of the workflow, run against the context.
pub trait MicroTask {
    fn run(&self, ctx: &mut WorkflowContext) -> (r: Result<TaskResult, Error>)
        requires
            old(ctx).wf(),
        ensures
            task_post(*old(ctx), *final(ctx), r),
    ;
}

// ---------------------------------------------------------------- sampling

/// The context is as it was but for the metrics of `step`.
pub open spec fn only_metrics_of(old: WorkflowContext, new: WorkflowContext, step: usize) -> bool {
    &&& new.wf()
    &&& new.metrics.steps@.len() == old.metrics.steps@.len()
    &&& forall|i: int|
        0 <= i < old.metrics.steps@.len() && i != step ==> #[trigger] new.metrics.steps@[i]
            == old.metrics.steps@[i]
    &&& new.metrics.decomposition_votes == old.metrics.decomposition_votes
    &&& new.metrics.solution_votes == old.metrics.solution_votes
    &&& new.root_step_id == old.root_step_id
    &&& new.steps == old.steps
    &&& new.work_queue == old.work_queue
    &&& new.wait_state == old.wait_state
    &&& new.pending_decompositions == old.pending_decompositions
    &&& new.pending_solutions == old.pending_solutions
    &&& new.dry_run == old.dry_run
    &&& new.prompt == old.prompt
}

/// The incidents of a rejected sample: one per match, each with the sample's preview.
pub fn matches_to_incidents(matches: &Vec<RedFlagMatch>, sample: &String) -> (r: Vec<
    RedFlagIncident,
>)
    ensures
        r@.len() == matches@.len(),
        forall|i: int|
            0 <= i < r@.len() ==> (#[trigger] r@[i]).sample_preview@ == preview_of(sample@)
                && r@[i].flagger == matches@[i].flagger && r@[i].reason == matches@[i].reason,
        forall|i: int| 0 <= i < r@.len() ==> (#[trigger] r@[i]).sample_preview@.len() <= PREVIEW_LIMIT,
{
    let preview = preview_sample(sample.as_str());
    let mut out: Vec<RedFlagIncident> = Vec::new();
    let mut i: usize = 0;
    while i < matches.len()
        invariant
            i <= matches.len(),
            out@.len() == i,
            preview@ == preview_of(sample@),
            preview@.len() <= PREVIEW_LIMIT,
            forall|j: int|
                0 <= j < i ==> (#[trigger] out@[j]).sample_preview@ == preview_of(sample@)
                    && out@[j].flagger == matches@[j].flagger && out@[j].reason
                    == matches@[j].reason,
        decreases matches.len() - i,
    {
        out.push(
            RedFlagIncident {
                flagger: matches[i].flagger.clone(),
                reason: matches[i].reason.clone(),
                sample_preview: preview.clone(),
            },
        );
        i = i + 1;
    }
    out
}

/// The samples of a batch that no validator rejected, in arrival order.
pub open spec fn kept_samples(batch: Seq<String>, verdicts: Seq<Vec<RedFlagMatch>>) -> Seq<String>
    decreases batch.len(),
{
    if batch.len() == 0 {
        seq![]
    } else {
        kept_samples(batch.drop_last(), verdicts) + if verdicts[batch.len() - 1]@.len() == 0 {
            seq![batch.last()]
        } else {
            seq![]
        }
    }
}

proof fn lemma_kept_len(batch: Seq<String>, verdicts: Seq<Vec<RedFlagMatch>>)
    ensures
        kept_samples(batch, verdicts).len() <= batch.len(),
    decreases batch.len(),
{
    if batch.len() > 0 {
        lemma_kept_len(batch.drop_last(), verdicts);
    }
}

proof fn lemma_kept_pass(pipeline: &RedFlagPipeline, batch: Seq<String>, verdicts: Seq<Vec<RedFlagMatch>>)
    requires
        batch.len() <= verdicts.len(),
        forall|x: int| 0 <= x < batch.len() && (#[trigger] verdicts[x])@.len() == 0 ==> pipeline.passes(batch[x]@),
    ensures
        forall|i: int| 0 <= i < kept_samples(batch, verdicts).len() ==> pipeline.passes(
            #[trigger] kept_samples(batch, verdicts)[i]@,
        ),
    decreases batch.len(),
{
    if batch.len() > 0 {
        let n = batch.len() - 1;
        assert forall|x: int| 0 <= x < batch.drop_last().len() && (#[trigger] verdicts[x])@.len() == 0 implies pipeline.passes(batch.drop_last()[x]@) by {
            assert(batch.drop_last()[x] == batch[x]);
        }
        lemma_kept_pass(pipeline, batch.drop_last(), verdicts);
        let pre = kept_samples(batch.drop_last(), verdicts);
        assert forall|i: int| 0 <= i < kept_samples(batch, verdicts).len() implies pipeline.passes(
            #[trigger] kept_samples(batch, verdicts)[i]@,
        ) by {
            if i < pre.len() {
                assert(kept_samples(batch, verdicts)[i] == pre[i]);
            } else {
                assert(verdicts[n]@.len() == 0);
                assert(kept_samples(batch, verdicts)[i] == batch[n]);
            }
        }
    }
}

/// Keeps the samples of a batch whose verdict holds no rejection, in arrival order.
pub fn keep_clean(batch: &Vec<String>, verdicts: &Vec<Vec<RedFlagMatch>>) -> (r: Vec<String>)
    requires
        batch@.len() == verdicts@.len(),
    ensures
        r@ == kept_samples(batch@, verdicts@),
        r@.len() <= batch@.len(),
{
    let mut out: Vec<String> = Vec::new();
    let mut i: usize = 0;
    assert(batch@.take(0) =~= Seq::<String>::empty());
    while i < batch.len()
        invariant
            batch@.len() == verdicts@.len(),
            i <= batch@.len(),
            out@ == kept_samples(batch@.take(i as int), verdicts@),
            out@.len() <= i,
        decreases batch.len() - i,
    {
        proof {
            assert(batch@.take(i + 1).drop_last() =~= batch@.take(i as int));
            assert(batch@.take(i + 1).last() == batch@[i as int]);
        }
        if verdicts[i].len() == 0 {
            let ghost prev = out@;
            out.push(batch[i].clone());
            proof {
                assert(out@ =~= prev + seq![batch@[i as int]]);
            }
        } else {
            assert(out@ + seq![] =~= out@);
        }
        i = i + 1;
    }
    assert(batch@.take(batch@.len() as int) =~= batch@);
    out
}

/// How a sampling round ended.
#[derive(Debug, Clone, Copy, PartialEq, Eq, Structural)]
pub enum RoundOutcome {
    /// The target count is reached.
    Filled,
    /// Short of the target, with rounds left.
    Short,
    /// Short of the target, and the budget of rounds is spent.
    Exhausted,
}

/// The budget of rounds for `target` samples: `max(target, 1) * 4`.
pub open spec fn round_budget(target: usize) -> nat {
    (if target >= 1 { target as nat } else { 1 }) * 4
}

/// What a rejected sample leaves on its step: one incident per match, with the sample's preview.
pub open spec fn incident_view(i: RedFlagIncident) -> (Seq<char>, Seq<char>, Seq<char>) {
    (i.flagger@, i.reason@, i.sample_preview@)
}

pub open spec fn flagged_incidents(batch: Seq<String>, verdicts: Seq<Vec<RedFlagMatch>>) -> Seq<(Seq<char>, Seq<char>, Seq<char>)>
    decreases batch.len(),
{
    if batch.len() == 0 {
        seq![]
    } else {
        flagged_incidents(batch.drop_last(), verdicts) + verdicts[batch.len() - 1]@.map_values(
            |m: RedFlagMatch| (m.flagger@, m.reason@, preview_of(batch.last()@)),
        )
    }
}

/// Ends one sampling round, given the samples drawn and the rejections of each: the clean
/// samples join `accepted` in arrival order, the rejections are recorded as incidents, the batch counts as
/// requested and the clean samples as retained; a round that leaves `accepted` short counts a
/// resample, and is `Exhausted` once `attempts` reaches the budget.
pub fn settle_round(
    ctx: &mut WorkflowContext,
    step_id: usize,
    accepted: &mut Vec<String>,
    batch: &Vec<String>,
    verdicts: &Vec<Vec<RedFlagMatch>>,
    target: usize,
    attempts: usize,
) -> (r: RoundOutcome)
    requires
        old(ctx).wf(),
        step_id < old(ctx).steps@.len(),
        batch@.len() == verdicts@.len(),
    ensures
        only_metrics_of(*old(ctx), *final(ctx), step_id),
        final(accepted)@ == old(accepted)@ + kept_samples(batch@, verdicts@),
        ({
            let m0 = old(ctx).metrics.steps@[step_id as int];
            let m1 = final(ctx).metrics.steps@[step_id as int];
            let short = final(accepted)@.len() < target;
            &&& m1.samples_requested == m0.samples_requested.saturating_add(batch@.len() as usize)
            &&& m1.samples_retained == m0.samples_retained.saturating_add(
                kept_samples(batch@, verdicts@).len() as usize,
            )
            &&& m1.red_flags@.map_values(|i: RedFlagIncident| incident_view(i)) == m0.red_flags@.map_values(
                |i: RedFlagIncident| incident_view(i),
            ) + flagged_incidents(batch@, verdicts@)
            &&& m1.resamples == if short {
                m0.resamples.saturating_add(1)
            } else {
                m0.resamples
            }
            &&& m1.vote_margin == m0.vote_margin
            &&& r == if !short {
                RoundOutcome::Filled
            } else if attempts >= round_budget(target) {
                RoundOutcome::Exhausted
            } else {
                RoundOutcome::Short
            }
        }),
{
    let ghost base = old(ctx).metrics.steps@[step_id as int].red_flags@.map_values(
        |i: RedFlagIncident| incident_view(i),
    );
    let ghost acc0 = accepted@;
    let ghost m0 = old(ctx).metrics.steps@[step_id as int];
    let mut kept_count: usize = 0;
    let mut j: usize = 0;
    assert(batch@.take(0) =~= Seq::<String>::empty());
    while j < batch.len()
        invariant
            only_metrics_of(*old(ctx), *ctx, step_id),
            step_id < ctx.steps@.len(),
            batch@.len() == verdicts@.len(),
            j <= batch@.len(),
            accepted@ == acc0 + kept_samples(batch@.take(j as int), verdicts@),
            kept_count == kept_samples(batch@.take(j as int), verdicts@).len(),
            kept_count <= j,
            ctx.metrics.steps@[step_id as int].red_flags@.map_values(|i: RedFlagIncident| incident_view(i))
                == base + flagged_incidents(batch@.take(j as int), verdicts@),
            ctx.metrics.steps@[step_id as int].samples_requested == m0.samples_requested,
            ctx.metrics.steps@[step_id as int].samples_retained == m0.samples_retained,
            ctx.metrics.steps@[step_id as int].resamples == m0.resamples,
            ctx.metrics.steps@[step_id as int].vote_margin == m0.vote_margin,
        decreases batch.len() - j,
    {
        let ghost flags_before = ctx.metrics.steps@[step_id as int].red_flags@;
        proof {
            assert(batch@.take(j + 1).drop_last() =~= batch@.take(j as int));
            assert(batch@.take(j + 1).last() == batch@[j as int]);
        }
        if verdicts[j].len() == 0 {
            let ghost prev = accepted@;
            accepted.push(batch[j].clone());
            proof {
                assert(accepted@ =~= prev + seq![batch@[j as int]]);
                assert(verdicts@[j as int]@.map_values(|m: RedFlagMatch| (m.flagger@, m.reason@, preview_of(batch@[j as int]@)))
                    =~= Seq::<(Seq<char>, Seq<char>, Seq<char>)>::empty());
                assert(base + flagged_incidents(batch@.take(j + 1), verdicts@) =~= base + flagged_incidents(batch@.take(j as int), verdicts@));
            }
            kept_count = kept_count + 1;
        } else {
            let incidents = matches_to_incidents(&verdicts[j], &batch[j]);
            let ghost added = incidents@;
            proof {
                assert(added.map_values(|i: RedFlagIncident| incident_view(i)) =~= verdicts@[j as int]@.map_values(
                    |m: RedFlagMatch| (m.flagger@, m.reason@, preview_of(batch@[j as int]@)),
                ));
            }
            ctx.metrics.record_red_flags(step_id, incidents);
            proof {
                assert(ctx.metrics.steps@[step_id as int].red_flags@.map_values(|i: RedFlagIncident| incident_view(i))
                    =~= flags_before.map_values(|i: RedFlagIncident| incident_view(i)) + added.map_values(
                    |i: RedFlagIncident| incident_view(i),
                ));
                assert(accepted@ =~= acc0 + kept_samples(batch@.take(j + 1), verdicts@));
            }
        }
        j = j + 1;
    }
    proof {
        assert(batch@.take(batch@.len() as int) =~= batch@);
    }
    ctx.metrics.record_samples(step_id, batch.len(), kept_count);
    let budget: u128 = (if target >= 1 { target as u128 } else { 1 }) * 4;
    if accepted.len() < target {
        ctx.metrics.record_resample(step_id);
        if attempts as u128 >= budget {
            RoundOutcome::Exhausted
        } else {
            RoundOutcome::Short
        }
    } else {
        RoundOutcome::Filled
    }
}

/// Draws `target` samples of `prompt` that pass the pipeline. With an empty pipeline one batch
/// is drawn and kept; otherwise batches of the missing count are drawn and filtered, each short
/// round counts a resample, and after `max(target, 1) * 4` rounds the collector gives up with a
/// `System` error. Rejections are recorded on the step with their previews.
pub fn collect_samples<L: LlmClient>(
    ctx: &mut WorkflowContext,
    step_id: usize,
    llm: &L,
    pipeline: &RedFlagPipeline,
    prompt: &String,
    target: usize,
    model: &String,
) -> (r: Result<Vec<String>, Error>)
    requires
        old(ctx).wf(),
        step_id < old(ctx).steps@.len(),
    ensures
        only_metrics_of(*old(ctx), *final(ctx), step_id),
        target == 0 ==> (r matches Ok(v) && v@.len() == 0) && final(ctx).metrics == old(ctx).metrics,
        target > 0 && pipeline.flaggers@.len() == 0 && r is Ok ==> {
            let m0 = old(ctx).metrics.steps@[step_id as int];
            let m1 = final(ctx).metrics.steps@[step_id as int];
            &&& m1.samples_requested == m0.samples_requested.saturating_add(target)
            &&& m1.samples_retained == m0.samples_retained.saturating_add(target)
            &&& m1.resamples == m0.resamples
            &&& m1.red_flags == m0.red_flags
        },
        r matches Ok(v) ==> v@.len() == target,
        r matches Ok(v) ==> forall|i: int| 0 <= i < v@.len() ==> pipeline.length_ok(#[trigger] v@[i]@),
        r matches Ok(v) ==> forall|i: int| 0 <= i < v@.len() ==> pipeline.passes(#[trigger] v@[i]@),
        r is Ok ==> final(ctx).metrics.steps@[step_id as int].samples_retained == old(ctx).metrics.steps@[step_id as int].samples_retained.saturating_add(target),
        r is Ok ==> final(ctx).metrics.steps@[step_id as int].samples_requested >= old(ctx).metrics.steps@[step_id as int].samples_requested,
        r is Ok ==> final(ctx).metrics.steps@[step_id as int].resamples >= old(ctx).metrics.steps@[step_id as int].resamples,
{
    if target == 0 {
        return Ok(Vec::new());
    }
    if pipeline.is_empty() {
        let responses = sample_n(llm, prompt, target, model)?;
        ctx.metrics.record_samples(step_id, target, target);
        return Ok(responses);
    }
    let mut accepted: Vec<String> = Vec::new();
    let mut attempts: usize = 0;
    let max_attempts: usize = if target > usize::MAX / 4 {
        usize::MAX
    } else {
        target * 4
    };
    while accepted.len() < target
        invariant
            only_metrics_of(*old(ctx), *ctx, step_id),
            step_id < ctx.steps@.len(),
            accepted@.len() <= target,
            accepted@.len() < target ==> attempts < max_attempts,
            attempts <= max_attempts,
            forall|i: int| 0 <= i < accepted@.len() ==> pipeline.passes(#[trigger] accepted@[i]@),
            ctx.metrics.steps@[step_id as int].samples_retained == old(ctx).metrics.steps@[step_id as int].samples_retained.saturating_add(accepted@.len() as usize),
            ctx.metrics.steps@[step_id as int].samples_requested >= old(ctx).metrics.steps@[step_id as int].samples_requested,
            ctx.metrics.steps@[step_id as int].resamples >= old(ctx).metrics.steps@[step_id as int].resamples,
        decreases max_attempts - attempts,
    {
        attempts = attempts + 1;
        let remaining = target - accepted.len();
        let batch = sample_n(llm, prompt, remaining, model)?;
        let mut verdicts: Vec<Vec<RedFlagMatch>> = Vec::new();
        let mut j: usize = 0;
        while j < batch.len()
            invariant
                batch@.len() == remaining,
                j <= batch@.len(),
                verdicts@.len() == j,
                forall|x: int| 0 <= x < j && (#[trigger] verdicts@[x])@.len() == 0 ==> pipeline.passes(batch@[x]@),
            decreases batch.len() - j,
        {
            let matches = pipeline.evaluate(&batch[j], llm);
            verdicts.push(matches);
            j = j + 1;
        }
        proof {
            lemma_kept_pass(pipeline, batch@, verdicts@);
            lemma_kept_len(batch@, verdicts@);
        }
        let ghost before = accepted@;
        let outcome = settle_round(ctx, step_id, &mut accepted, &batch, &verdicts, target, attempts);
        proof {
            assert forall|i: int| 0 <= i < accepted@.len() implies pipeline.passes(#[trigger] accepted@[i]@) by {
                if i >= before.len() {
                    assert(accepted@[i] == kept_samples(batch@, verdicts@)[i - before.len()]);
                } else {
                    assert(accepted@[i] == before[i]);
                }
            }
        }
        match outcome {
            RoundOutcome::Exhausted => {
                return Err(
                    Error::System(
                        String::from_str("Exceeded red-flag resample budget during sampling"),
                    ),
                );
            },
            RoundOutcome::Short => {
                if attempts >= max_attempts {
                    return Err(
                        Error::System(
                            String::from_str("Exceeded red-flag resample budget during sampling"),
                        ),
                    );
                }
            },
            RoundOutcome::Filled => {},
        }
    }
    Ok(accepted)
}

// ---------------------------------------------------------------- proposals

/// The subtasks a raw decomposition proposes: its lines, or the step's own description when
/// it has none.
pub open spec fn proposal_subtasks(raw: Seq<char>, fallback: Seq<char>) -> Seq<Seq<char>> {
    if subtasks_of(raw).len() > 0 {
        subtasks_of(raw)
    } else {
        seq![fallback]
    }
}

/// One proposal per raw decomposition, numbered in order.
pub fn build_proposals(responses: Vec<String>, fallback: &String) -> (r: Vec<DecompositionProposal>)
    ensures
        r@.len() == responses@.len(),
        forall|i: int|
            0 <= i < r@.len() ==> (#[trigger] r@[i]).id == i && r@[i].raw == responses@[i]
                && views(r@[i].subtasks@) == proposal_subtasks(responses@[i]@, fallback@),
{
    let mut out: Vec<DecompositionProposal> = Vec::new();
    let mut i: usize = 0;
    while i < responses.len()
        invariant
            i <= responses.len(),
            out@.len() == i,
            forall|j: int|
                0 <= j < i ==> (#[trigger] out@[j]).id == j && out@[j].raw == responses@[j]
                    && views(out@[j].subtasks@) == proposal_subtasks(responses@[j]@, fallback@),
        decreases responses.len() - i,
    {
        let raw = responses[i].clone();
        let mut subtasks = parse_subtasks(raw.as_str());
        if subtasks.len() == 0 {
            subtasks.push(fallback.clone());
            assert(views(subtasks@) =~= seq![fallback@]);
        }
        out.push(DecompositionProposal::new(i, raw, subtasks));
        i = i + 1;
    }
    out
}

/// The subtasks of a proposal, one per line.
pub open spec fn joined_lines(v: Seq<Seq<char>>) -> Seq<char>
    decreases v.len(),
{
    if v.len() == 0 {
        seq![]
    } else if v.len() == 1 {
        v[0]
    } else {
        joined_lines(v.drop_last()) + seq!['\n'] + v.last()
    }
}

pub fn join_lines(v: &Vec<String>) -> (r: String)
    ensures
        r@ == joined_lines(views(v@)),
{
    let ghost vs = views(v@);
    let mut out = String::new();
    let mut i: usize = 0;
    assert(vs.take(0) =~= Seq::<Seq<char>>::empty());
    while i < v.len()
        invariant
            vs == views(v@),
            i <= v.len(),
            out@ == joined_lines(vs.take(i as int)),
        decreases v.len() - i,
    {
        proof {
            assert(vs.take(i + 1).drop_last() =~= vs.take(i as int));
            assert(vs.take(i + 1).last() == v@[i as int]@);
        }
        if i > 0 {
            out.append("\n");
            proof {
                reveal_strlit("\n");
            }
        } else {
            assert(vs.take(1) =~= seq![v@[0]@]);
        }
        out.append(v[i].as_str());
        i = i + 1;
    }
    assert(vs.take(vs.len() as int) =~= vs);
    out
}

// ---------------------------------------------------------------- votes

/// The votes that raw discriminator responses give, in order, unreadable ones dropped.
pub open spec fn parsed_votes(raws: Seq<Seq<char>>, options: nat) -> Seq<usize>
    decreases raws.len(),
{
    if raws.len() == 0 {
        seq![]
    } else {
        parsed_votes(raws.drop_last(), options) + match first_vote(words(raws.last()), options) {
            Some(c) => seq![c],
            None => seq![],
        }
    }
}

pub fn parse_votes(raws: &Vec<String>, options: usize) -> (r: Vec<usize>)
    ensures
        r@ == parsed_votes(views(raws@), options as nat),
        forall|i: int| 0 <= i < r@.len() ==> #[trigger] r@[i] < options,
{
    let ghost rs = views(raws@);
    let mut out: Vec<usize> = Vec::new();
    let mut i: usize = 0;
    assert(rs.take(0) =~= Seq::<Seq<char>>::empty());
    while i < raws.len()
        invariant
            rs == views(raws@),
            i <= raws.len(),
            out@ == parsed_votes(rs.take(i as int), options as nat),
            forall|j: int| 0 <= j < out@.len() ==> #[trigger] out@[j] < options,
        decreases raws.len() - i,
    {
        proof {
            assert(rs.take(i + 1).drop_last() =~= rs.take(i as int));
            assert(rs.take(i + 1).last() == raws@[i as int]@);
        }
        match parse_vote_response(raws[i].as_str(), options) {
            Some(c) => {
                out.push(c);
            },
            None => {
                assert(out@ + seq![] =~= out@);
            },
        }
        i = i + 1;
    }
    assert(rs.take(rs.len() as int) =~= rs);
    out
}

/// `m` is the margin recorded for a vote won by `w`: the winner's votes minus the best other
/// option's, at least one.
pub open spec fn recorded_margin(votes: Seq<usize>, options: nat, w: usize, m: usize) -> bool {
    exists|second: nat|
        #[trigger] best_other(votes, options, w, second) && m == margin_of(tally(votes, w), second)
            as usize
}

/// The margin a vote asks for: `k`, at least one.
pub open spec fn effective_k(k: usize) -> nat {
    if k >= 1 {
        k as nat
    } else {
        1
    }
}

/// The ring of recent margins that votes of `kind` feed.
pub open spec fn ring_of(m: WorkflowMetrics, kind: AgentKind) -> Seq<usize> {
    if kind == AgentKind::DecompositionDiscriminator {
        m.decomposition_votes.recent_margins@
    } else {
        m.solution_votes.recent_margins@
    }
}

/// A vote of `kind` on `step` was recorded: the step has a margin of at least one, the
/// kind's ring gained it (its oldest entry going once full), and the other ring is as it was.
pub open spec fn vote_recorded(old: WorkflowMetrics, new: WorkflowMetrics, step: usize, kind: AgentKind) -> bool {
    &&& (new.steps@[step as int].vote_margin matches Some(m) && m >= 1 && ring_of(new, kind)
        == pushed_ring(ring_of(old, kind), m))
    &&& kind == AgentKind::DecompositionDiscriminator ==> new.solution_votes == old.solution_votes
    &&& kind == AgentKind::SolutionDiscriminator ==> new.decomposition_votes
        == old.decomposition_votes
}

/// Reads the discriminator's responses, picks the winner among `options`, and records the
/// margin on the step and in the kind's ring.
pub fn tally_vote(
    ctx: &mut WorkflowContext,
    step_id: usize,
    kind: AgentKind,
    raw_votes: &Vec<String>,
    options: usize,
    k: usize,
) -> (r: usize)
    requires
        old(ctx).wf(),
        step_id < old(ctx).steps@.len(),
        options >= 1,
        k >= 1,
        kind == AgentKind::DecompositionDiscriminator || kind == AgentKind::SolutionDiscriminator,
    ensures
        r < options,
        chosen_index(parsed_votes(views(raw_votes@), options as nat), k as nat, options as nat, r),
        vote_recorded(old(ctx).metrics, final(ctx).metrics, step_id, kind),
        final(ctx).metrics.steps@.len() == old(ctx).metrics.steps@.len(),
        forall|i: int|
            0 <= i < old(ctx).metrics.steps@.len() && i != step_id ==> #[trigger] final(ctx).metrics.steps@[i]
                == old(ctx).metrics.steps@[i],
        final(ctx).root_step_id == old(ctx).root_step_id,
        final(ctx).metrics.steps@[step_id as int].vote_margin matches Some(m) && recorded_margin(
            parsed_votes(views(raw_votes@), options as nat), options as nat, r, m),
        final(ctx).wf(),
        final(ctx).steps == old(ctx).steps,
        final(ctx).work_queue == old(ctx).work_queue,
        final(ctx).wait_state == old(ctx).wait_state,
        final(ctx).pending_decompositions == old(ctx).pending_decompositions,
        final(ctx).pending_solutions == old(ctx).pending_solutions,
        final(ctx).dry_run == old(ctx).dry_run,
        exists|second: nat|
            best_other(parsed_votes(views(raw_votes@), options as nat), options as nat, r, second)
                && final(ctx).metrics.steps@[step_id as int].vote_margin == Some(
                margin_of(tally(parsed_votes(views(raw_votes@), options as nat), r), second)
                    as usize,
            ),
{
    let votes = parse_votes(raw_votes, options);
    let winner = select_winner(&votes, k, options);
    let (winner_votes, runner_up) = vote_counts(&votes, options, winner);
    ctx.metrics.record_vote(step_id, kind, winner_votes, runner_up);
    assert(best_other(votes@, options as nat, winner, runner_up as nat));
    winner
}

// ---------------------------------------------------------------- task outcomes

/// The context is as it was but for the step's metrics, its pending work and the steps
/// named.
pub open spec fn keeps_schedule(old: WorkflowContext, new: WorkflowContext) -> bool {
    &&& new.wf()
    &&& new.work_queue == old.work_queue
    &&& new.wait_state == old.wait_state
    &&& new.dry_run == old.dry_run
    &&& new.steps@.len() >= old.steps@.len()
}

/// Registers the proposals that raw decompositions make for a step. Fails with `System` when
/// there is none.
pub fn finish_decomposition(
    ctx: &mut WorkflowContext,
    step_id: usize,
    fallback: &String,
    responses: Vec<String>,
) -> (r: Result<(), Error>)
    requires
        old(ctx).wf(),
        step_id < old(ctx).steps@.len(),
    ensures
        final(ctx).metrics.steps == old(ctx).metrics.steps,
        final(ctx).root_step_id == old(ctx).root_step_id,
        keeps_schedule(*old(ctx), *final(ctx)),
        final(ctx).steps@ == old(ctx).steps@,
        r is Ok <==> responses@.len() > 0,
        r matches Err(e) ==> e is System,
        r is Ok ==> (final(ctx).pending_decompositions@[step_id as int] matches Some(ps) && ps@.len()
            == responses@.len() && forall|i: int|
            0 <= i < ps@.len() ==> (#[trigger] ps@[i]).id == i && ps@[i].raw == responses@[i]
                && views(ps@[i].subtasks@) == proposal_subtasks(responses@[i]@, fallback@)),
{
    let proposals = build_proposals(responses, fallback);
    if proposals.len() == 0 {
        return Err(Error::System(String::from_str("LLM returned no decomposition proposals")));
    }
    ctx.metrics.decomposition_runs = ctx.metrics.decomposition_runs.saturating_add(1);
    ctx.register_decomposition(step_id, proposals);
    Ok(())
}

/// The options a decomposition vote lists: each proposal's subtasks, one per line.
pub fn proposal_options(proposals: &Vec<DecompositionProposal>) -> (r: Vec<String>)
    ensures
        r@.len() == proposals@.len(),
        forall|i: int| 0 <= i < r@.len() ==> (#[trigger] r@[i])@ == joined_lines(views(proposals@[i].subtasks@)),
{
    let mut options: Vec<String> = Vec::new();
    let mut i: usize = 0;
    while i < proposals.len()
        invariant
            i <= proposals.len(),
            options@.len() == i,
            forall|j: int| 0 <= j < i ==> (#[trigger] options@[j])@ == joined_lines(views(proposals@[j].subtasks@)),
        decreases proposals.len() - i,
    {
        options.push(join_lines(&proposals[i].subtasks));
        i = i + 1;
    }
    options
}

/// Picks the winning proposal from raw votes, records the margin, and adds one child of the
/// step per subtask of the winner. Returns the winner and the children's ids.
pub fn finish_decomposition_vote(
    ctx: &mut WorkflowContext,
    step_id: usize,
    proposals: &Vec<DecompositionProposal>,
    raw_votes: &Vec<String>,
    k: usize,
) -> (r: Result<(usize, Vec<usize>), Error>)
    requires
        old(ctx).wf(),
        step_id < old(ctx).steps@.len(),
        proposals@.len() >= 1,
        k >= 1,
    ensures
        descriptions_kept(old(ctx).steps@, final(ctx).steps@),
        forall|i: int|
            0 <= i < old(ctx).steps@.len() && i != step_id ==> #[trigger] final(ctx).steps@[i]
                == old(ctx).steps@[i],
        final(ctx).root_step_id == old(ctx).root_step_id,
        vote_recorded(old(ctx).metrics, final(ctx).metrics, step_id, AgentKind::DecompositionDiscriminator),
        final(ctx).pending_decompositions@[step_id as int] == old(ctx).pending_decompositions@[step_id as int],
        r matches Ok((w, ids)) ==> forall|i: int|
            0 <= i < ids@.len() ==> final(ctx).steps@[#[trigger] ids@[i] as int].status == StepStatus::Pending,
        keeps_schedule(*old(ctx), *final(ctx)),
        final(ctx).metrics.steps@[step_id as int].vote_margin is Some,
        (forall|i: int| 0 <= i < proposals@.len() ==> (#[trigger] proposals@[i]).subtasks@.len() == 0
            || old(ctx).steps@.len() + proposals@[i].subtasks@.len() + 1 < usize::MAX) ==> r is Ok,
        r matches Err(e) ==> e is InvalidState,
        exists|w: usize|
            #![trigger chosen_index(parsed_votes(views(raw_votes@), proposals@.len()), k as nat, proposals@.len(), w)]
            w < proposals@.len() && chosen_index(parsed_votes(views(raw_votes@), proposals@.len()), k as nat,
                proposals@.len(), w) && (final(ctx).metrics.steps@[step_id as int].vote_margin matches Some(m)
                && recorded_margin(parsed_votes(views(raw_votes@), proposals@.len()), proposals@.len(), w, m))
                && (r matches Ok((w2, _)) ==> w2 == w),
        r matches Ok((w, ids)) ==> {
            &&& w < proposals@.len()
            &&& chosen_index(parsed_votes(views(raw_votes@), proposals@.len()), k as nat, proposals@.len(), w)
            &&& final(ctx).steps@[step_id as int].children@ == old(ctx).steps@[step_id as int].children@ + ids@
            &&& final(ctx).steps@[step_id as int].status == old(ctx).steps@[step_id as int].status
            &&& ids@.len() == proposals@[w as int].subtasks@.len()
            &&& forall|i: int|
                0 <= i < ids@.len() ==> old(ctx).steps@.len() <= #[trigger] ids@[i] < final(ctx).steps@.len()
                    && final(ctx).steps@[ids@[i] as int].description == proposals@[w as int].subtasks@[i]
                    && final(ctx).steps@[ids@[i] as int].parent == Some(step_id)
        },
{
    let winner = tally_vote(
        ctx,
        step_id,
        AgentKind::DecompositionDiscriminator,
        raw_votes,
        proposals.len(),
        k,
    );
    let ghost mid = *ctx;
    let children = spawn_children(ctx, step_id, &proposals[winner].subtasks);
    proof {
        assert(ctx.metrics.steps@.len() >= mid.metrics.steps@.len());
        assert(ctx.metrics.steps@[step_id as int] == mid.metrics.steps@[step_id as int]);
        assert(proposals@[winner as int].subtasks@.len() == 0 || old(ctx).steps@.len()
            + proposals@[winner as int].subtasks@.len() + 1 < usize::MAX ==> children is Ok);
    }
    match children {
        Ok(ids) => Ok((winner, ids)),
        Err(e) => Err(e),
    }
}

/// Records a step's candidate solutions for its vote. Fails with `System` when there is none.
pub fn finish_solve(ctx: &mut WorkflowContext, step_id: usize, responses: Vec<String>) -> (r: Result<(), Error>)
    requires
        old(ctx).wf(),
        step_id < old(ctx).steps@.len(),
    ensures
        descriptions_kept(old(ctx).steps@, final(ctx).steps@),
        forall|i: int|
            0 <= i < old(ctx).steps@.len() && i != step_id ==> #[trigger] final(ctx).steps@[i]
                == old(ctx).steps@[i],
        final(ctx).root_step_id == old(ctx).root_step_id,
        keeps_schedule(*old(ctx), *final(ctx)),
        final(ctx).steps@.len() == old(ctx).steps@.len(),
        r is Ok <==> responses@.len() > 0,
        r matches Err(e) ==> e is System,
        r is Ok ==> final(ctx).steps@[step_id as int].candidate_solutions@ == responses@
            && (final(ctx).pending_solutions@[step_id as int] matches Some(v) && v@ == responses@),
{
    if responses.len() == 0 {
        return Err(Error::System(String::from_str("Solver agent produced no candidates")));
    }
    ctx.metrics.solve_runs = ctx.metrics.solve_runs.saturating_add(1);
    ctx.register_solutions(step_id, responses);
    Ok(())
}

/// Picks the winning candidate from raw votes, records the margin, and completes the step with
/// the winner as its solution.
pub fn finish_solution_vote(
    ctx: &mut WorkflowContext,
    step_id: usize,
    solutions: &Vec<String>,
    raw_votes: &Vec<String>,
    k: usize,
) -> (r: usize)
    requires
        old(ctx).wf(),
        step_id < old(ctx).steps@.len(),
        solutions@.len() >= 1,
        k >= 1,
    ensures
        descriptions_kept(old(ctx).steps@, final(ctx).steps@),
        forall|i: int|
            0 <= i < old(ctx).steps@.len() && i != step_id ==> #[trigger] final(ctx).steps@[i]
                == old(ctx).steps@[i],
        final(ctx).root_step_id == old(ctx).root_step_id,
        vote_recorded(old(ctx).metrics, final(ctx).metrics, step_id, AgentKind::SolutionDiscriminator),
        final(ctx).pending_solutions == old(ctx).pending_solutions,
        keeps_schedule(*old(ctx), *final(ctx)),
        final(ctx).steps@.len() == old(ctx).steps@.len(),
        r < solutions@.len(),
        chosen_index(parsed_votes(views(raw_votes@), solutions@.len()), k as nat, solutions@.len(), r),
        final(ctx).steps@[step_id as int].status == StepStatus::Completed,
        final(ctx).steps@[step_id as int].winning_solution == Some(solutions@[r as int]),
        final(ctx).metrics.steps@[step_id as int].vote_margin is Some,
        final(ctx).metrics.steps@[step_id as int].vote_margin matches Some(m) && recorded_margin(
            parsed_votes(views(raw_votes@), solutions@.len()), solutions@.len(), r, m),
{
    let winner = tally_vote(
        ctx,
        step_id,
        AgentKind::SolutionDiscriminator,
        raw_votes,
        solutions.len(),
        k,
    );
    ctx.mark_step_solution(step_id, solutions[winner].clone());
    winner
}

/// Settles a step after its solution was applied (`applied`) and verified (`verified`): a
/// failed application fails the step; otherwise the verification is recorded and decides
/// between `Completed` and `Failed`.
pub fn finish_apply_verify(ctx: &mut WorkflowContext, step_id: usize, applied: bool, verified: bool) -> (r: TaskEffect)
    requires
        old(ctx).wf(),
        step_id < old(ctx).steps@.len(),
        old(ctx).steps@[step_id as int].winning_solution is Some,
    ensures
        descriptions_kept(old(ctx).steps@, final(ctx).steps@),
        forall|i: int|
            0 <= i < old(ctx).steps@.len() && i != step_id ==> #[trigger] final(ctx).steps@[i]
                == old(ctx).steps@[i],
        final(ctx).root_step_id == old(ctx).root_step_id,
        keeps_schedule(*old(ctx), *final(ctx)),
        final(ctx).steps@.len() == old(ctx).steps@.len(),
        !applied ==> final(ctx).steps@[step_id as int].status == StepStatus::Failed && r == TaskEffect::Unchanged,
        applied ==> final(ctx).metrics.steps@[step_id as int].verification_passed == Some(verified),
        applied && verified ==> final(ctx).steps@[step_id as int].status == StepStatus::Completed
            && r == (TaskEffect::StepCompleted { step_id }),
        applied && !verified ==> final(ctx).steps@[step_id as int].status == StepStatus::Failed
            && r == TaskEffect::Unchanged,
{
    if !applied {
        ctx.mark_step_status(step_id, StepStatus::Failed);
        return TaskEffect::Unchanged;
    }
    ctx.metrics.record_verification(step_id, verified);
    if verified {
        ctx.mark_step_status(step_id, StepStatus::Completed);
        TaskEffect::StepCompleted { step_id }
    } else {
        ctx.mark_step_status(step_id, StepStatus::Failed);
        TaskEffect::Unchanged
    }
}

// ---------------------------------------------------------------- tasks

fn elapsed<K: Clock>(clock: &K, start: u128) -> (r: u128) {
    clock.now_ms().saturating_sub(start)
}

pub struct DecompositionTask<'a, L, R, K> {
    pub step_id: usize,
    pub prompt: String,
    pub agent: AgentConfig,
    pub llm: &'a L,
    pub red_flags: &'a RedFlagPipeline,
    pub renderer: &'a R,
    pub clock: &'a K,
}

impl<'a, L, R, K> DecompositionTask<'a, L, R, K> {
    pub fn new(
        step_id: usize,
        prompt: String,
        agent: AgentConfig,
        llm: &'a L,
        red_flags: &'a RedFlagPipeline,
        renderer: &'a R,
        clock: &'a K,
    ) -> (r: Self)
        ensures
            r.step_id == step_id,
            r.prompt == prompt,
            r.agent == agent,
    {
        DecompositionTask { step_id, prompt, agent, llm, red_flags, renderer, clock }
    }
}

impl<'a, L: LlmClient, R: PromptRenderer, K: Clock> MicroTask for DecompositionTask<'a, L, R, K> {
    /// Marks the step running, samples proposals through the pipeline and registers them for
    /// the vote.
    fn run(&self, ctx: &mut WorkflowContext) -> (r: Result<TaskResult, Error>)
        ensures
            self.step_id >= old(ctx).steps@.len() ==> r is Err,
            final(ctx).root_step_id == old(ctx).root_step_id,
            r is Ok && self.red_flags.flaggers@.len() == 0 ==> ({
                let m0 = old(ctx).metrics.steps@[self.step_id as int];
                let m1 = final(ctx).metrics.steps@[self.step_id as int];
                let n = if self.agent.samples >= 1 { self.agent.samples } else { 1 };
                &&& m1.samples_requested == m0.samples_requested.saturating_add(n)
                &&& m1.samples_retained == m0.samples_retained.saturating_add(n)
                &&& m1.resamples == m0.resamples
                &&& m1.red_flags == m0.red_flags
            }),
            r matches Ok(t) ==> {
                &&& t.action == NextAction::Continue
                &&& t.effect == TaskEffect::Unchanged
                &&& final(ctx).steps@[self.step_id as int].status == StepStatus::Running
                &&& forall|i: int|
                    0 <= i < old(ctx).steps@.len() && i != self.step_id ==> #[trigger] final(ctx).steps@[i]
                        == old(ctx).steps@[i]
                &&& final(ctx).pending_decompositions@[self.step_id as int] matches Some(ps)
                &&& ps@.len() == (if self.agent.samples >= 1 { self.agent.samples } else { 1 })
                &&& forall|i: int|
                    0 <= i < ps@.len() ==> (#[trigger] ps@[i]).id == i && views(ps@[i].subtasks@)
                        == proposal_subtasks(ps@[i].raw@, self.prompt@) && self.red_flags.length_ok(
                        ps@[i].raw@,
                    )
            },
    {
        let step_id = self.step_id;
        if step_id >= ctx.steps.len() {
            return Err(Error::InvalidState(String::from_str("Unknown step")));
        }
        let start = self.clock.now_ms();
        let samples = if self.agent.samples >= 1 {
            self.agent.samples
        } else {
            1
        };
        let role = String::from_str("decomposition");
        let rendered = self.renderer.render(&self.agent.prompt_template, &self.prompt, &role)?;
        ctx.mark_step_status(step_id, StepStatus::Running);
        let responses = collect_samples(
            ctx,
            step_id,
            self.llm,
            self.red_flags,
            &rendered,
            samples,
            &self.agent.model,
        )?;
        let took = elapsed(self.clock, start);
        ctx.metrics.record_duration_ms(step_id, took);
        finish_decomposition(ctx, step_id, &self.prompt, responses)?;
        Ok(TaskResult::continue_with(TaskEffect::Unchanged))
    }
}

/// Adds one child of `step_id` per subtask, in order, with consecutive fresh ids, and lists
/// them among the step's children. Fails, changing nothing, when the ids would not fit.
pub fn spawn_children(ctx: &mut WorkflowContext, step_id: usize, subtasks: &Vec<String>) -> (r: Result<Vec<usize>, Error>)
    requires
        old(ctx).wf(),
        step_id < old(ctx).steps@.len(),
    ensures
        descriptions_kept(old(ctx).steps@, final(ctx).steps@),
        r is Ok <==> (subtasks@.len() == 0 || old(ctx).steps@.len() + subtasks@.len() + 1 < usize::MAX),
        r is Err ==> *final(ctx) == *old(ctx),
        r matches Err(e) ==> e is InvalidState,
        forall|i: int|
            0 <= i < old(ctx).steps@.len() && i != step_id ==> #[trigger] final(ctx).steps@[i]
                == old(ctx).steps@[i],
        final(ctx).steps@[step_id as int].description == old(ctx).steps@[step_id as int].description,
        final(ctx).steps@[step_id as int].status == old(ctx).steps@[step_id as int].status,
        final(ctx).root_step_id == old(ctx).root_step_id,
        final(ctx).metrics.decomposition_votes == old(ctx).metrics.decomposition_votes,
        final(ctx).metrics.solution_votes == old(ctx).metrics.solution_votes,
        final(ctx).metrics.steps@.len() >= old(ctx).metrics.steps@.len(),
        forall|i: int|
            0 <= i < old(ctx).pending_decompositions@.len() ==> #[trigger] final(ctx).pending_decompositions@[i]
                == old(ctx).pending_decompositions@[i],
        forall|i: int|
            0 <= i < old(ctx).metrics.steps@.len() ==> #[trigger] final(ctx).metrics.steps@[i]
                == old(ctx).metrics.steps@[i],
        final(ctx).wf(),
        final(ctx).steps@.len() >= old(ctx).steps@.len(),
        final(ctx).work_queue == old(ctx).work_queue,
        final(ctx).wait_state == old(ctx).wait_state,
        final(ctx).dry_run == old(ctx).dry_run,
        final(ctx).prompt == old(ctx).prompt,
        r matches Ok(ids) ==> {
            &&& ids@.len() == subtasks@.len()
            &&& final(ctx).steps@.len() == old(ctx).steps@.len() + ids@.len()
            &&& final(ctx).steps@[step_id as int].children@ == old(ctx).steps@[step_id as int].children@ + ids@
            &&& forall|i: int|
                0 <= i < ids@.len() ==> #[trigger] ids@[i] == old(ctx).steps@.len() + i
                    && final(ctx).steps@[ids@[i] as int].description == subtasks@[i]
                    && final(ctx).steps@[ids@[i] as int].parent == Some(step_id)
                    && final(ctx).steps@[ids@[i] as int].status == StepStatus::Pending
                    && final(ctx).steps@[ids@[i] as int].depth == old(ctx).steps@[step_id as int].depth + 1
        },
{
    if subtasks.len() > 0 && subtasks.len() >= usize::MAX - 1 - ctx.steps.len() {
        return Err(Error::InvalidState(String::from_str("step limit reached")));
    }
    let mut ids: Vec<usize> = Vec::new();
    let mut i: usize = 0;
    while i < subtasks.len()
        invariant
            ctx.wf(),
            subtasks@.len() == 0 || old(ctx).steps@.len() + subtasks@.len() + 1 < usize::MAX,
            step_id < old(ctx).steps@.len(),
            ctx.steps@.len() == old(ctx).steps@.len() + i,
            descriptions_kept(old(ctx).steps@, ctx.steps@),
            ctx.work_queue == old(ctx).work_queue,
            ctx.wait_state == old(ctx).wait_state,
            ctx.dry_run == old(ctx).dry_run,
            ctx.prompt == old(ctx).prompt,
            old(ctx).metrics.steps@.len() <= ctx.metrics.steps@.len(),
            ctx.metrics.decomposition_votes == old(ctx).metrics.decomposition_votes,
            ctx.metrics.solution_votes == old(ctx).metrics.solution_votes,
            ctx.root_step_id == old(ctx).root_step_id,
            old(ctx).pending_decompositions@.len() <= ctx.pending_decompositions@.len(),
            forall|m: int|
                0 <= m < old(ctx).steps@.len() && m != step_id ==> #[trigger] ctx.steps@[m]
                    == old(ctx).steps@[m],
            ctx.steps@[step_id as int].description == old(ctx).steps@[step_id as int].description,
            ctx.steps@[step_id as int].status == old(ctx).steps@[step_id as int].status,
            ctx.steps@[step_id as int].depth == old(ctx).steps@[step_id as int].depth,
            ctx.steps@[step_id as int].children@ == old(ctx).steps@[step_id as int].children@ + ids@,
            forall|m: int|
                0 <= m < old(ctx).pending_decompositions@.len() ==> #[trigger] ctx.pending_decompositions@[m]
                    == old(ctx).pending_decompositions@[m],
            forall|m: int|
                0 <= m < old(ctx).metrics.steps@.len() ==> #[trigger] ctx.metrics.steps@[m]
                    == old(ctx).metrics.steps@[m],
            i <= subtasks.len(),
            ids@.len() == i,
            forall|j: int|
                0 <= j < i ==> #[trigger] ids@[j] == old(ctx).steps@.len() + j
                    && ctx.steps@[ids@[j] as int].description == subtasks@[j]
                    && ctx.steps@[ids@[j] as int].parent == Some(step_id)
                    && ctx.steps@[ids@[j] as int].status == StepStatus::Pending
                    && ctx.steps@[ids@[j] as int].depth == old(ctx).steps@[step_id as int].depth + 1,
        decreases subtasks.len() - i,
    {
        let ghost prev = ctx.steps@;
        let ghost prev_children = ctx.steps@[step_id as int].children@;
        let id = match ctx.add_child_step(step_id, subtasks[i].clone()) {
            Ok(id) => id,
            Err(e) => {
                return Err(e);
            },
        };
        proof {
            assert(ctx.steps@[id as int].depth == prev[step_id as int].depth + 1);
            assert forall|j: int| 0 <= j < i implies #[trigger] ids@[j] == old(ctx).steps@.len() + j
                && ctx.steps@[ids@[j] as int].description == subtasks@[j]
                && ctx.steps@[ids@[j] as int].parent == Some(step_id)
                && ctx.steps@[ids@[j] as int].status == StepStatus::Pending
                && ctx.steps@[ids@[j] as int].depth == old(ctx).steps@[step_id as int].depth + 1 by {
                assert(ids@[j] != step_id);
                assert(ctx.steps@[ids@[j] as int] == prev[ids@[j] as int]);
            }
        }
        ids.push(id);
        proof {
            assert(ctx.steps@[step_id as int].children@ =~= old(ctx).steps@[step_id as int].children@ + ids@);
        }
        i = i + 1;
    }
    Ok(ids)
}

pub struct DecompositionVoteTask<'a, L, R, K> {
    pub step_id: usize,
    pub agent: AgentConfig,
    pub llm: &'a L,
    pub vote_k: usize,
    pub renderer: &'a R,
    pub clock: &'a K,
}

impl<'a, L, R, K> DecompositionVoteTask<'a, L, R, K> {
    pub fn new(
        step_id: usize,
        agent: AgentConfig,
        llm: &'a L,
        vote_k: usize,
        renderer: &'a R,
        clock: &'a K,
    ) -> (r: Self)
        ensures
            r.step_id == step_id,
            r.agent == agent,
            r.vote_k == vote_k,
    {
        DecompositionVoteTask { step_id, agent, llm, vote_k, renderer, clock }
    }
}

impl<'a, L: LlmClient, R: PromptRenderer, K: Clock> MicroTask for DecompositionVoteTask<
    'a,
    L,
    R,
    K,
> {
    /// Votes among the registered proposals and spawns one child per subtask of the winner.
    fn run(&self, ctx: &mut WorkflowContext) -> (r: Result<TaskResult, Error>)
        ensures
            self.step_id >= old(ctx).steps@.len() ==> r is Err,
            self.step_id < old(ctx).steps@.len() && old(ctx).pending_decompositions@[self.step_id as int] is None ==> r is Err
                && final(ctx).steps == old(ctx).steps,
            self.step_id >= old(ctx).steps@.len() ==> final(ctx).steps == old(ctx).steps,
            self.step_id < old(ctx).steps@.len() && (old(ctx).pending_decompositions@[self.step_id as int] matches Some(ps)
                && ps@.len() == 0) ==> r is Err && final(ctx).steps == old(ctx).steps,
            final(ctx).root_step_id == old(ctx).root_step_id,
            r matches Ok(t) ==> {
                &&& t.action == NextAction::Continue
                &&& vote_recorded(old(ctx).metrics, final(ctx).metrics, self.step_id, AgentKind::DecompositionDiscriminator)
                &&& final(ctx).pending_decompositions@[self.step_id as int] is None
                &&& old(ctx).pending_decompositions@[self.step_id as int] matches Some(ps)
                &&& ps@.len() >= 1
                &&& t.effect matches TaskEffect::SpawnedSteps(ids)
                &&& final(ctx).steps@[self.step_id as int].children@ == old(ctx).steps@[self.step_id as int].children@ + ids@
                &&& exists|w: usize, raws: Seq<Seq<char>>|
                    #![trigger chosen_index(parsed_votes(raws, ps@.len()), effective_k(self.vote_k), ps@.len(), w)]
                    w < ps@.len() && chosen_index(parsed_votes(raws, ps@.len()), effective_k(self.vote_k), ps@.len(), w)
                        && (final(ctx).metrics.steps@[self.step_id as int].vote_margin matches Some(m)
                        && recorded_margin(parsed_votes(raws, ps@.len()), ps@.len(), w, m))
                        && ids@.len() == ps@[w as int].subtasks@.len() && forall|i: int|
                        0 <= i < ids@.len() ==> old(ctx).steps@.len() <= #[trigger] ids@[i]
                            < final(ctx).steps@.len() && final(ctx).steps@[ids@[i] as int].description
                            == ps@[w as int].subtasks@[i] && final(ctx).steps@[ids@[i] as int].parent
                            == Some(self.step_id) && final(ctx).steps@[ids@[i] as int].status
                            == StepStatus::Pending
            },
    {
        let step_id = self.step_id;
        if step_id >= ctx.steps.len() {
            return Err(Error::InvalidState(String::from_str("Unknown step")));
        }
        let start = self.clock.now_ms();
        let proposals = match ctx.take_decomposition(step_id) {
            Some(p) => p,
            None => {
                return Err(Error::InvalidState(String::from_str("No proposals available for step")));
            },
        };
        if proposals.len() == 0 {
            return Err(Error::InvalidState(String::from_str("No proposals available for step")));
        }
        let options = proposal_options(&proposals);
        let body = enumerate_options(&options);
        let role = String::from_str("decomposition_vote");
        let rendered = self.renderer.render(&self.agent.prompt_template, &body, &role)?;
        let samples = if self.agent.samples >= 1 {
            self.agent.samples
        } else {
            1
        };
        let raw_votes = sample_n(self.llm, &rendered, samples, &self.agent.model)?;
        let k = if self.vote_k >= 1 {
            self.vote_k
        } else {
            1
        };
        let took = elapsed(self.clock, start);
        ctx.metrics.record_duration_ms(step_id, took);
        let (winner, children) = finish_decomposition_vote(ctx, step_id, &proposals, &raw_votes, k)?;
        let ghost raws = views(raw_votes@);
        proof {
            assert(k as nat == effective_k(self.vote_k));
            assert(chosen_index(parsed_votes(raws, proposals@.len()), effective_k(self.vote_k), proposals@.len(), winner));
            assert(vote_recorded(old(ctx).metrics, ctx.metrics, step_id, AgentKind::DecompositionDiscriminator));
            assert(ctx.pending_decompositions@[step_id as int] is None);
        }
        Ok(TaskResult::continue_with(TaskEffect::SpawnedSteps(children)))
    }
}

pub struct SolveTask<'a, L, R, K> {
    pub step_id: usize,
    pub agent: AgentConfig,
    pub llm: &'a L,
    pub red_flags: &'a RedFlagPipeline,
    pub renderer: &'a R,
    pub clock: &'a K,
}

impl<'a, L, R, K> SolveTask<'a, L, R, K> {
    pub fn new(
        step_id: usize,
        agent: AgentConfig,
        llm: &'a L,
        red_flags: &'a RedFlagPipeline,
        renderer: &'a R,
        clock: &'a K,
    ) -> (r: Self)
        ensures
            r.step_id == step_id,
            r.agent == agent,
    {
        SolveTask { step_id, agent, llm, red_flags, renderer, clock }
    }
}

impl<'a, L: LlmClient, R: PromptRenderer, K: Clock> MicroTask for SolveTask<'a, L, R, K> {
    /// Samples candidate solutions of the step through the pipeline and registers them.
    fn run(&self, ctx: &mut WorkflowContext) -> (r: Result<TaskResult, Error>)
        ensures
            self.step_id >= old(ctx).steps@.len() ==> r is Err,
            final(ctx).root_step_id == old(ctx).root_step_id,
            r matches Ok(t) ==> {
                &&& t.action == NextAction::Continue
                &&& t.effect == (TaskEffect::SolutionsReady { step_id: self.step_id })
                &&& forall|i: int|
                    0 <= i < old(ctx).steps@.len() && i != self.step_id ==> #[trigger] final(ctx).steps@[i]
                        == old(ctx).steps@[i]
                &&& final(ctx).steps@[self.step_id as int].candidate_solutions@.len() == (if self.agent.samples >= 1 { self.agent.samples } else { 1 })
                &&& (final(ctx).pending_solutions@[self.step_id as int] matches Some(v) && v@
                    == final(ctx).steps@[self.step_id as int].candidate_solutions@)
                &&& forall|i: int|
                    0 <= i < final(ctx).steps@[self.step_id as int].candidate_solutions@.len()
                        ==> self.red_flags.length_ok(
                        (#[trigger] final(ctx).steps@[self.step_id as int].candidate_solutions@[i])@,
                    )
            },
    {
        let step_id = self.step_id;
        if step_id >= ctx.steps.len() {
            return Err(Error::InvalidState(String::from_str("Unknown step")));
        }
        let start = self.clock.now_ms();
        let description = ctx.steps[step_id].description.clone();
        let role = String::from_str("solve");
        let rendered = self.renderer.render(&self.agent.prompt_template, &description, &role)?;
        let samples = if self.agent.samples >= 1 {
            self.agent.samples
        } else {
            1
        };
        let responses = collect_samples(
            ctx,
            step_id,
            self.llm,
            self.red_flags,
            &rendered,
            samples,
            &self.agent.model,
        )?;
        let took = elapsed(self.clock, start);
        ctx.metrics.record_duration_ms(step_id, took);
        finish_solve(ctx, step_id, responses)?;
        Ok(TaskResult::continue_with(TaskEffect::SolutionsReady { step_id }))
    }
}

pub struct SolutionVoteTask<'a, L, R, K> {
    pub step_id: usize,
    pub agent: AgentConfig,
    pub llm: &'a L,
    pub vote_k: usize,
    pub renderer: &'a R,
    pub clock: &'a K,
}

impl<'a, L, R, K> SolutionVoteTask<'a, L, R, K> {
    pub fn new(
        step_id: usize,
        agent: AgentConfig,
        llm: &'a L,
        vote_k: usize,
        renderer: &'a R,
        clock: &'a K,
    ) -> (r: Self)
        ensures
            r.step_id == step_id,
            r.agent == agent,
            r.vote_k == vote_k,
    {
        SolutionVoteTask { step_id, agent, llm, vote_k, renderer, clock }
    }
}

impl<'a, L: LlmClient, R: PromptRenderer, K: Clock> MicroTask for SolutionVoteTask<'a, L, R, K> {
    /// Votes among the registered candidates; the winner becomes the step's solution and the
    /// step completes.
    fn run(&self, ctx: &mut WorkflowContext) -> (r: Result<TaskResult, Error>)
        ensures
            self.step_id >= old(ctx).steps@.len() ==> r is Err,
            self.step_id < old(ctx).steps@.len() && old(ctx).pending_solutions@[self.step_id as int] is None ==> r is Err,
            self.step_id < old(ctx).steps@.len() && (old(ctx).pending_solutions@[self.step_id as int] matches Some(c)
                && c@.len() == 0) ==> r is Err,
            final(ctx).root_step_id == old(ctx).root_step_id,
            r matches Ok(t) ==> {
                &&& t.action == NextAction::Continue
                &&& t.effect == (TaskEffect::WinnerSelected { step_id: self.step_id })
                &&& final(ctx).steps@[self.step_id as int].status == StepStatus::Completed
                &&& vote_recorded(old(ctx).metrics, final(ctx).metrics, self.step_id, AgentKind::SolutionDiscriminator)
                &&& final(ctx).pending_solutions@[self.step_id as int] is None
                &&& forall|i: int|
                    0 <= i < old(ctx).steps@.len() && i != self.step_id ==> #[trigger] final(ctx).steps@[i]
                        == old(ctx).steps@[i]
                &&& old(ctx).pending_solutions@[self.step_id as int] matches Some(c)
                &&& c@.len() >= 1
                &&& exists|w: usize, raws: Seq<Seq<char>>|
                    #![trigger chosen_index(parsed_votes(raws, c@.len()), effective_k(self.vote_k), c@.len(), w)]
                    w < c@.len() && chosen_index(parsed_votes(raws, c@.len()), effective_k(self.vote_k), c@.len(), w)
                        && final(ctx).steps@[self.step_id as int].winning_solution == Some(c@[w as int])
                        && (final(ctx).metrics.steps@[self.step_id as int].vote_margin matches Some(m)
                        && recorded_margin(parsed_votes(raws, c@.len()), c@.len(), w, m))
            },
    {
        let step_id = self.step_id;
        if step_id >= ctx.steps.len() {
            return Err(Error::InvalidState(String::from_str("Unknown step")));
        }
        let start = self.clock.now_ms();
        let solutions = match ctx.take_solutions(step_id) {
            Some(s) => s,
            None => {
                return Err(Error::InvalidState(String::from_str("No solutions queued for step")));
            },
        };
        if solutions.len() == 0 {
            return Err(Error::InvalidState(String::from_str("No solutions queued for step")));
        }
        let body = enumerate_options(&solutions);
        let role = String::from_str("solution_vote");
        let rendered = self.renderer.render(&self.agent.prompt_template, &body, &role)?;
        let samples = if self.agent.samples >= 1 {
            self.agent.samples
        } else {
            1
        };
        let raw_votes = sample_n(self.llm, &rendered, samples, &self.agent.model)?;
        let k = if self.vote_k >= 1 {
            self.vote_k
        } else {
            1
        };
        let took = elapsed(self.clock, start);
        ctx.metrics.record_duration_ms(step_id, took);
        let winner = finish_solution_vote(ctx, step_id, &solutions, &raw_votes, k);
        let ghost raws = views(raw_votes@);
        proof {
            assert(k as nat == effective_k(self.vote_k));
            assert(chosen_index(parsed_votes(raws, solutions@.len()), effective_k(self.vote_k), solutions@.len(), winner));
            assert(vote_recorded(old(ctx).metrics, ctx.metrics, step_id, AgentKind::SolutionDiscriminator));
            assert(ctx.pending_solutions@[step_id as int] is None);
        }
        Ok(TaskResult::continue_with(TaskEffect::WinnerSelected { step_id }))
    }
}

// ---------------------------------------------------------------- apply and verify

/// The directory part of a path: everything before its last `/`, when that is not empty.
pub fn parent_dir(path: &String) -> (r: Option<String>)
    ensures
        r matches Some(p) ==> exists|k: int|
            0 < k < path@.len() && path@[k] == '/' && (forall|j: int| k < j < path@.len() ==> path@[j] != '/')
                && p@ == path@.subrange(0, k),
        r is None ==> forall|k: int| 0 < k < path@.len() ==> path@[k] != '/',
{
    let v = crate::chars::char_vec(path.as_str());
    let mut i = v.len();
    while i > 0
        invariant
            i <= v.len(),
            v@ == path@,
            forall|j: int| i <= j < v@.len() ==> v@[j] != '/',
        decreases i,
    {
        if v[i - 1] == '/' {
            if i - 1 == 0 {
                assert forall|k: int| 0 < k < path@.len() implies path@[k] != '/' by {
                    assert(v@[k] != '/');
                }
                return None;
            }
            let p = crate::chars::string_of(&crate::chars::slice_chars(&v, 0, i - 1));
            assert(0 < (i - 1) as int && v@[i - 1] == '/');
            return Some(p);
        }
        i = i - 1;
    }
    None
}

/// Writes `content` to the checked path `path`, creating its parent directories first.
fn write_checked<F: FileSystem>(fs: &F, path: &String, content: &String) -> (r: Result<(), Error>) {
    if let Some(parent) = parent_dir(path) {
        let _ = fs.create_dir_all(&parent);
    }
    fs.write(path, content)
}

/// The files an overwrite writes, in order: each `<file path="...">` block with its trimmed
/// content; without blocks, the solution's first fenced code under the first path-like token of
/// the step description. Refused when any path is unsafe or no path is found, before anything
/// is written.
pub fn overwrite_plan(solution: &String, description: &String) -> (r: Result<Vec<(String, String)>, Error>)
    ensures
        r matches Err(e) ==> e is FileSystem,
        xml_blocks_from(solution@, 0).len() > 0 ==> ((r is Ok <==> forall|i: int|
            0 <= i < xml_blocks_from(solution@, 0).len() ==> path_is_safe(
                #[trigger] xml_blocks_from(solution@, 0)[i].0,
            )) && (r matches Ok(plan) ==> crate::text::pair_views(plan@) == xml_blocks_from(solution@, 0))),
        xml_blocks_from(solution@, 0).len() == 0 ==> ((r is Ok <==> (first_file_token(words(description@))
            matches Some(p) && path_is_safe(p))) && (r matches Ok(plan) ==> plan@.len() == 1
            && first_file_token(words(description@)) == Some(plan@[0].0@)
            && plan@[0].1@ == crate::text::code_content(solution@))),
{
    let files = extract_xml_files(solution.as_str());
    if files.len() > 0 {
        let ghost bs = crate::text::pair_views(files@);
        let mut i: usize = 0;
        while i < files.len()
            invariant
                bs == crate::text::pair_views(files@),
                bs =~= xml_blocks_from(solution@, 0),
                i <= files.len(),
                forall|j: int| 0 <= j < i ==> path_is_safe(#[trigger] bs[j].0),
            decreases files.len() - i,
        {
            assert(bs[i as int].0 == files@[i as int].0@);
            if let Err(e) = validate_target_path(files[i].0.as_str()) {
                return Err(e);
            }
            i = i + 1;
        }
        return Ok(files);
    }
    let target = match extract_target_path(description.as_str()) {
        Some(t) => t,
        None => {
            return Err(
                Error::FileSystem(String::from_str("Could not determine target file path")),
            );
        },
    };
    let path = validate_target_path(target.as_str())?;
    let content = extract_code_content(solution.as_str());
    let mut plan: Vec<(String, String)> = Vec::new();
    plan.push((path, content));
    Ok(plan)
}

/// Applies a solution by overwriting files: the plan's files are written in order, each after
/// its parent directories are created. Nothing is written when the plan is refused, and
/// nothing past the first failed write.
pub fn apply_overwrite<F: FileSystem>(fs: &F, solution: &String, description: &String) -> (r: Result<
    (),
    Error,
>)
    ensures
        r is Ok ==> (xml_blocks_from(solution@, 0).len() > 0 ==> forall|i: int|
            0 <= i < xml_blocks_from(solution@, 0).len() ==> path_is_safe(
                #[trigger] xml_blocks_from(solution@, 0)[i].0,
            )),
        r is Ok ==> (xml_blocks_from(solution@, 0).len() == 0 ==> (first_file_token(
            words(description@),
        ) matches Some(p) && path_is_safe(p))),
        r matches Err(e) ==> e is FileSystem,
{
    let plan = overwrite_plan(solution, description)?;
    let mut i: usize = 0;
    while i < plan.len()
        invariant
            i <= plan.len(),
        decreases plan.len() - i,
    {
        if write_checked(fs, &plan[i].0, &plan[i].1).is_err() {
            return Err(Error::FileSystem(String::from_str("Failed to overwrite file")));
        }
        i = i + 1;
    }
    Ok(())
}

/// The applier of a domain: "patch_file" does nothing, "overwrite_file" writes the solution's
/// files, any other command is left to the shell's owner.
pub fn apply_solution<F: FileSystem>(fs: &F, applier: &Option<String>, solution: &String, description: &String) -> (r: Result<(), Error>)
    ensures
        (applier matches Some(a) && a@ == "overwrite_file"@) ==> (r is Ok ==> (xml_blocks_from(solution@, 0).len() > 0 ==> forall|i: int|
            0 <= i < xml_blocks_from(solution@, 0).len() ==> path_is_safe(
                #[trigger] xml_blocks_from(solution@, 0)[i].0,
            ))),
        !(applier matches Some(a) && a@ == "overwrite_file"@) ==> r is Ok,
{
    match applier {
        Some(a) => {
            if crate::red_flags::same_text(a.as_str(), "overwrite_file") {
                apply_overwrite(fs, solution, description)
            } else {
                Ok(())
            }
        },
        None => Ok(()),
    }
}

pub struct ApplyVerifyTask<'a, F, S, K> {
    pub step_id: usize,
    pub applier: Option<String>,
    pub verifier: Option<String>,
    pub file_system: &'a F,
    pub commands: &'a S,
    pub clock: &'a K,
}

impl<'a, F, S, K> ApplyVerifyTask<'a, F, S, K> {
    pub fn new(
        step_id: usize,
        applier: Option<String>,
        verifier: Option<String>,
        file_system: &'a F,
        commands: &'a S,
        clock: &'a K,
    ) -> (r: Self)
        ensures
            r.step_id == step_id,
            r.applier == applier,
            r.verifier == verifier,
    {
        ApplyVerifyTask { step_id, applier, verifier, file_system, commands, clock }
    }
}

impl<'a, F: FileSystem, S: CommandRunner, K: Clock> MicroTask for ApplyVerifyTask<'a, F, S, K> {
    /// Applies the step's winning solution and runs the verifier. A dry run completes the step
    /// at once; a refused path or failed write, or a failing verifier, fails the step.
    fn run(&self, ctx: &mut WorkflowContext) -> (r: Result<TaskResult, Error>)
        ensures
            self.step_id >= old(ctx).steps@.len() ==> r is Err,
            self.step_id < old(ctx).steps@.len() && old(ctx).steps@[self.step_id as int].winning_solution is None ==> r is Err,
            final(ctx).root_step_id == old(ctx).root_step_id,
            self.step_id < old(ctx).steps@.len() && old(ctx).steps@[self.step_id as int].winning_solution is Some
                && old(ctx).dry_run ==> (r matches Ok(t) && t.effect == (TaskEffect::StepCompleted { step_id: self.step_id })
                && final(ctx).steps@[self.step_id as int].status == StepStatus::Completed),
            self.step_id < old(ctx).steps@.len() && old(ctx).steps@[self.step_id as int].winning_solution is Some
                && !(self.applier matches Some(a) && a@ == "overwrite_file"@) && self.verifier is None
                ==> (r matches Ok(t) && t.effect == (TaskEffect::StepCompleted { step_id: self.step_id })
                && final(ctx).steps@[self.step_id as int].status == StepStatus::Completed),
            self.step_id < old(ctx).steps@.len() && !old(ctx).dry_run && (self.applier matches Some(a) && a@ == "overwrite_file"@)
                && (old(ctx).steps@[self.step_id as int].winning_solution matches Some(sol)
                && xml_blocks_from(sol@, 0).len() > 0 && exists|i: int| 0 <= i < xml_blocks_from(sol@, 0).len()
                && !path_is_safe(#[trigger] xml_blocks_from(sol@, 0)[i].0)) ==> (r matches Ok(t)
                && t.effect == TaskEffect::Unchanged && final(ctx).steps@[self.step_id as int].status == StepStatus::Failed),
            r matches Ok(t) ==> t.action == NextAction::Continue && ((final(ctx).steps@[self.step_id as int].status
                == StepStatus::Completed && t.effect == (TaskEffect::StepCompleted { step_id: self.step_id }))
                || (final(ctx).steps@[self.step_id as int].status == StepStatus::Failed && t.effect
                == TaskEffect::Unchanged)),
            r matches Ok(t) ==> forall|i: int|
                0 <= i < old(ctx).steps@.len() && i != self.step_id ==> #[trigger] final(ctx).steps@[i]
                    == old(ctx).steps@[i],
    {
        let step_id = self.step_id;
        if step_id >= ctx.steps.len() {
            return Err(Error::InvalidState(String::from_str("Unknown step")));
        }
        let start = self.clock.now_ms();
        let solution = match &ctx.steps[step_id].winning_solution {
            Some(s) => s.clone(),
            None => {
                return Err(Error::InvalidState(String::from_str("No winning solution to apply")));
            },
        };
        if ctx.dry_run {
            ctx.mark_step_status(step_id, StepStatus::Completed);
            return Ok(TaskResult::continue_with(TaskEffect::StepCompleted { step_id }));
        }
        let description = ctx.steps[step_id].description.clone();
        let applied = apply_solution(self.file_system, &self.applier, &solution, &description).is_ok();
        let verified = if !applied {
            false
        } else {
            match &self.verifier {
                Some(cmd) => match self.commands.run_shell(cmd) {
                    Ok(passed) => passed,
                    Err(_) => false,
                },
                None => true,
            }
        };
        let took = elapsed(self.clock, start);
        ctx.metrics.record_duration_ms(step_id, took);
        let effect = finish_apply_verify(ctx, step_id, applied, verified);
        Ok(TaskResult::continue_with(effect))
    }
}

} // verus!
