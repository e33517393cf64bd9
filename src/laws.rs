use vstd::prelude::*;

use crate::domain::{pushed_ring, StepStatus, WorkflowContext, MARGIN_HISTORY};
use crate::text::PREVIEW_LIMIT;
use crate::vote::{margin_of, plurality_winner, tally};

verus! {

/// In a well-formed run at most one step waits on input, and a waiting step is the one the
/// wait state names.
pub proof fn lemma_single_waiting_step(ctx: WorkflowContext, i: int, j: int)
    requires
        ctx.wf(),
        0 <= i < ctx.steps@.len(),
        0 <= j < ctx.steps@.len(),
        ctx.steps@[i].status == StepStatus::WaitingOnInput,
        ctx.steps@[j].status == StepStatus::WaitingOnInput,
    ensures
        i == j,
        ctx.wait_state matches Some(w) && w.step_id == i,
{
    assert(ctx.steps@[i].status == StepStatus::WaitingOnInput);
    assert(ctx.steps@[j].status == StepStatus::WaitingOnInput);
}

/// Every completed step of a well-formed run has a winning solution.
pub proof fn lemma_completed_has_winner(ctx: WorkflowContext, i: int)
    requires
        ctx.wf(),
        0 <= i < ctx.steps@.len(),
        ctx.steps@[i].status == StepStatus::Completed,
    ensures
        ctx.steps@[i].winning_solution is Some,
{
    assert(ctx.steps@[i].status == StepStatus::Completed);
}

/// Every red-flag preview recorded in a well-formed run is at most 160 characters long.
pub proof fn lemma_previews_bounded(ctx: WorkflowContext, i: int, j: int)
    requires
        ctx.wf(),
        0 <= i < ctx.metrics.steps@.len(),
        0 <= j < ctx.metrics.steps@[i].red_flags@.len(),
    ensures
        ctx.metrics.steps@[i].red_flags@[j].sample_preview@.len() <= PREVIEW_LIMIT,
{
    assert(ctx.metrics.steps@[i].wf());
    assert(ctx.metrics.steps@[i].red_flags@[j].sample_preview@.len() <= PREVIEW_LIMIT);
}

/// A recorded vote margin is at least one: the margin of any counts is, and a well-formed run
/// holds no other.
pub proof fn lemma_margins_positive(ctx: WorkflowContext, i: int, winner_votes: nat, runner_up_votes: nat)
    requires
        ctx.wf(),
        0 <= i < ctx.metrics.steps@.len(),
    ensures
        margin_of(winner_votes, runner_up_votes) >= 1,
        ctx.metrics.steps@[i].vote_margin matches Some(m) ==> m >= 1,
{
    assert(ctx.metrics.steps@[i].wf());
}

/// The ring of recent margins of each discriminator kind holds at most eight margins.
pub proof fn lemma_vote_history_bounded(ctx: WorkflowContext)
    requires
        ctx.wf(),
    ensures
        ctx.metrics.decomposition_votes.recent_margins@.len() <= MARGIN_HISTORY,
        ctx.metrics.solution_votes.recent_margins@.len() <= MARGIN_HISTORY,
{
}

/// Recording a margin keeps the last eight margins, oldest first, ending with the new one.
pub proof fn lemma_ring_keeps_last_eight(ring: Seq<usize>, m: usize)
    requires
        ring.len() <= MARGIN_HISTORY,
    ensures
        pushed_ring(ring, m).len() <= MARGIN_HISTORY,
        pushed_ring(ring, m).last() == m,
        pushed_ring(ring, m) =~= ring.push(m).skip(ring.push(m).len() - pushed_ring(ring, m).len()),
        ring.len() < MARGIN_HISTORY ==> pushed_ring(ring, m).len() == ring.len() + 1,
        ring.len() == MARGIN_HISTORY ==> pushed_ring(ring, m).len() == MARGIN_HISTORY,
{
}

/// The plurality winner is the lowest of the candidates with the most votes: any candidate
/// with as many votes is not below it.
pub proof fn lemma_ties_break_low(votes: Seq<usize>, c: usize, d: usize)
    requires
        plurality_winner(votes, c),
        tally(votes, d) == tally(votes, c),
    ensures
        c <= d,
{
    if d < c {
        assert(tally(votes, d) < tally(votes, c));
    }
}

} // verus!
