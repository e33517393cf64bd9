use std::collections::VecDeque;

use vstd::prelude::*;

use crate::error::Error;
use crate::text::PREVIEW_LIMIT;
use crate::vote::{margin_of, vote_margin};

verus! {

/// Capacity of the ring of recent vote margins kept per discriminator kind.
pub const MARGIN_HISTORY: usize = 8;

#[derive(Clone, Copy, Debug, PartialEq, Eq, Structural)]
pub enum StepStatus {
    Pending,
    Running,
    WaitingOnInput,
    Completed,
    Failed,
}

#[derive(Clone, Copy, Debug, PartialEq, Eq, Hash, Structural)]
pub enum AgentKind {
    Decomposition,
    DecompositionDiscriminator,
    Solver,
    SolutionDiscriminator,
}

/// A unit of pending scheduler work, aimed at one step.
#[derive(Clone, Copy, Debug, PartialEq, Eq, Structural)]
pub enum WorkItem {
    Decomposition { step_id: usize },
    DecompositionVote { step_id: usize },
    Solve { step_id: usize },
    SolutionVote { step_id: usize },
    ApplyVerify { step_id: usize },
}

impl WorkItem {
    pub open spec fn target(&self) -> usize {
        match *self {
            WorkItem::Decomposition { step_id } => step_id,
            WorkItem::DecompositionVote { step_id } => step_id,
            WorkItem::Solve { step_id } => step_id,
            WorkItem::SolutionVote { step_id } => step_id,
            WorkItem::ApplyVerify { step_id } => step_id,
        }
    }

    pub fn step_id(&self) -> (r: usize)
        ensures
            r == self.target(),
    {
        match *self {
            WorkItem::Decomposition { step_id } => step_id,
            WorkItem::DecompositionVote { step_id } => step_id,
            WorkItem::Solve { step_id } => step_id,
            WorkItem::SolutionVote { step_id } => step_id,
            WorkItem::ApplyVerify { step_id } => step_id,
        }
    }
}

#[derive(Clone, Debug)]
pub struct WorkflowStep {
    pub id: usize,
    pub parent: Option<usize>,
    pub depth: usize,
    pub description: String,
    pub status: StepStatus,
    pub children: Vec<usize>,
    pub candidate_solutions: Vec<String>,
    pub winning_solution: Option<String>,
}

#[derive(Clone, Debug)]
pub struct DecompositionProposal {
    pub id: usize,
    pub raw: String,
    pub subtasks: Vec<String>,
}

impl DecompositionProposal {
    pub fn new(id: usize, raw: String, subtasks: Vec<String>) -> (r: Self)
        ensures
            r.id == id,
            r.raw == raw,
            r.subtasks == subtasks,
    {
        DecompositionProposal { id, raw, subtasks }
    }
}

/// The single-slot pause record.
#[derive(Clone, Debug)]
pub struct WaitState {
    pub step_id: usize,
    pub trigger: String,
    pub details: String,
}

#[derive(Clone, Debug)]
pub struct RedFlagIncident {
    pub flagger: String,
    pub reason: String,
    pub sample_preview: String,
}

#[derive(Clone, Debug)]
pub struct StepMetrics {
    pub samples_requested: usize,
    pub samples_retained: usize,
    pub resamples: usize,
    pub red_flags: Vec<RedFlagIncident>,
    pub vote_margin: Option<usize>,
    pub duration_ms: Option<u128>,
    pub verification_passed: Option<bool>,
}

impl StepMetrics {
    pub open spec fn wf(&self) -> bool {
        &&& forall|i: int|
            0 <= i < self.red_flags@.len() ==> (#[trigger] self.red_flags@[i]).sample_preview@.len()
                <= PREVIEW_LIMIT
        &&& self.vote_margin matches Some(m) ==> m >= 1
    }

    pub fn new() -> (r: Self)
        ensures
            r.wf(),
            r.samples_requested == 0,
            r.samples_retained == 0,
            r.resamples == 0,
            r.red_flags@.len() == 0,
            r.vote_margin is None,
            r.duration_ms is None,
            r.verification_passed is None,
    {
        StepMetrics {
            samples_requested: 0,
            samples_retained: 0,
            resamples: 0,
            red_flags: Vec::new(),
            vote_margin: None,
            duration_ms: None,
            verification_passed: None,
        }
    }
}

/// A ring of margins after `margin` is added: the oldest goes once it holds eight.
pub open spec fn pushed_ring(ring: Seq<usize>, margin: usize) -> Seq<usize> {
    if ring.len() < MARGIN_HISTORY {
        ring.push(margin)
    } else {
        ring.push(margin).drop_first()
    }
}

/// The most recent vote margins of one discriminator kind, oldest first.
#[derive(Clone, Debug)]
pub struct VoteStats {
    pub recent_margins: Vec<usize>,
}

impl VoteStats {
    pub open spec fn wf(&self) -> bool {
        self.recent_margins@.len() <= MARGIN_HISTORY
    }

    /// Appends a margin, evicting the oldest once the ring is full.
    pub fn push_margin(&mut self, margin: usize)
        requires
            old(self).wf(),
        ensures
            final(self).wf(),
            old(self).recent_margins@.len() < MARGIN_HISTORY ==> final(self).recent_margins@
                == old(self).recent_margins@.push(margin),
            old(self).recent_margins@.len() == MARGIN_HISTORY ==> final(self).recent_margins@
                == old(self).recent_margins@.push(margin).drop_first(),
            final(self).recent_margins@ == pushed_ring(old(self).recent_margins@, margin),
    {
        self.recent_margins.push(margin);
        if self.recent_margins.len() > MARGIN_HISTORY {
            self.recent_margins.remove(0);
            assert(final(self).recent_margins@ =~= old(self).recent_margins@.push(
                margin,
            ).drop_first());
        }
    }
}

#[derive(Clone, Debug)]
pub struct WorkflowMetrics {
    pub sample_count: usize,
    pub resample_count: usize,
    pub vote_attempts: usize,
    pub decomposition_runs: usize,
    pub solve_runs: usize,
    pub red_flag_hits: usize,
    pub steps: Vec<StepMetrics>,
    pub decomposition_votes: VoteStats,
    pub solution_votes: VoteStats,
}

impl WorkflowMetrics {
    pub open spec fn wf(&self) -> bool {
        &&& forall|i: int| 0 <= i < self.steps@.len() ==> (#[trigger] self.steps@[i]).wf()
        &&& self.decomposition_votes.wf()
        &&& self.solution_votes.wf()
    }

    /// Every step's metrics but `step`'s, and the vote rings, are as in `old`.
    pub open spec fn only_step_changed(&self, old: &Self, step: usize) -> bool {
        &&& self.steps@.len() == old.steps@.len()
        &&& forall|i: int|
            0 <= i < self.steps@.len() && i != step ==> #[trigger] self.steps@[i] == old.steps@[i]
        &&& self.decomposition_votes == old.decomposition_votes
        &&& self.solution_votes == old.solution_votes
    }

    pub fn new() -> (r: Self)
        ensures
            r.wf(),
            r.steps@.len() == 0,
            r.decomposition_votes.recent_margins@.len() == 0,
            r.solution_votes.recent_margins@.len() == 0,
    {
        WorkflowMetrics {
            sample_count: 0,
            resample_count: 0,
            vote_attempts: 0,
            decomposition_runs: 0,
            solve_runs: 0,
            red_flag_hits: 0,
            steps: Vec::new(),
            decomposition_votes: VoteStats { recent_margins: Vec::new() },
            solution_votes: VoteStats { recent_margins: Vec::new() },
        }
    }

    pub fn step_metrics(&self, step_id: usize) -> (r: Option<&StepMetrics>)
        ensures
            step_id < self.steps@.len() ==> r == Some(&self.steps@[step_id as int]),
            step_id >= self.steps@.len() ==> r is None,
    {
        if step_id < self.steps.len() {
            Some(&self.steps[step_id])
        } else {
            None
        }
    }

    /// The ring of recent margins of a discriminator kind; other kinds keep none.
    pub open spec fn ring(&self, kind: AgentKind) -> Option<VoteStats> {
        match kind {
            AgentKind::DecompositionDiscriminator => Some(self.decomposition_votes),
            AgentKind::SolutionDiscriminator => Some(self.solution_votes),
            _ => None,
        }
    }

    pub fn vote_stats(&self, kind: AgentKind) -> (r: Option<&VoteStats>)
        ensures
            r matches Some(s) ==> self.ring(kind) == Some(*s),
            r is None ==> self.ring(kind) is None,
    {
        match kind {
            AgentKind::DecompositionDiscriminator => Some(&self.decomposition_votes),
            AgentKind::SolutionDiscriminator => Some(&self.solution_votes),
            _ => None,
        }
    }

    /// Adds a batch: `requested` samples asked for, `retained` of them kept.
    pub fn record_samples(&mut self, step_id: usize, requested: usize, retained: usize)
        requires
            old(self).wf(),
            step_id < old(self).steps@.len(),
        ensures
            final(self).wf(),
            final(self).only_step_changed(old(self), step_id),
            final(self).steps@[step_id as int].samples_requested == old(self).steps@[step_id as int].samples_requested.saturating_add(requested),
            final(self).steps@[step_id as int].samples_retained == old(self).steps@[step_id as int].samples_retained.saturating_add(retained),
            final(self).steps@[step_id as int].red_flags == old(self).steps@[step_id as int].red_flags,
            final(self).steps@[step_id as int].resamples == old(self).steps@[step_id as int].resamples,
            final(self).steps@[step_id as int].vote_margin == old(self).steps@[step_id as int].vote_margin,
    {
        self.sample_count = self.sample_count.saturating_add(retained);
        let s = &mut self.steps[step_id];
        s.samples_requested = s.samples_requested.saturating_add(requested);
        s.samples_retained = s.samples_retained.saturating_add(retained);
        assert(final(self).steps@[step_id as int].wf());
    }

    /// Counts one resample round of a step.
    pub fn record_resample(&mut self, step_id: usize)
        requires
            old(self).wf(),
            step_id < old(self).steps@.len(),
        ensures
            final(self).steps@[step_id as int].red_flags == old(self).steps@[step_id as int].red_flags,
            final(self).steps@[step_id as int].samples_requested == old(self).steps@[step_id as int].samples_requested,
            final(self).steps@[step_id as int].samples_retained == old(self).steps@[step_id as int].samples_retained,
            final(self).wf(),
            final(self).only_step_changed(old(self), step_id),
            final(self).steps@[step_id as int].resamples == old(self).steps@[step_id as int].resamples.saturating_add(1),
            final(self).steps@[step_id as int].red_flags == old(self).steps@[step_id as int].red_flags,
            final(self).steps@[step_id as int].vote_margin == old(self).steps@[step_id as int].vote_margin,
    {
        self.resample_count = self.resample_count.saturating_add(1);
        let s = &mut self.steps[step_id];
        s.resamples = s.resamples.saturating_add(1);
        assert(final(self).steps@[step_id as int].wf());
    }

    /// Appends red-flag incidents to a step.
    pub fn record_red_flags(&mut self, step_id: usize, incidents: Vec<RedFlagIncident>)
        requires
            old(self).wf(),
            step_id < old(self).steps@.len(),
            forall|i: int|
                0 <= i < incidents@.len() ==> (#[trigger] incidents@[i]).sample_preview@.len()
                    <= PREVIEW_LIMIT,
        ensures
            final(self).steps@[step_id as int].samples_requested == old(self).steps@[step_id as int].samples_requested,
            final(self).steps@[step_id as int].samples_retained == old(self).steps@[step_id as int].samples_retained,
            final(self).wf(),
            final(self).only_step_changed(old(self), step_id),
            final(self).steps@[step_id as int].red_flags@ == old(self).steps@[step_id as int].red_flags@ + incidents@,
            final(self).steps@[step_id as int].resamples == old(self).steps@[step_id as int].resamples,
            final(self).steps@[step_id as int].vote_margin == old(self).steps@[step_id as int].vote_margin,
    {
        self.red_flag_hits = self.red_flag_hits.saturating_add(incidents.len());
        let mut incidents = incidents;
        let ghost added = incidents@;
        let ghost before = self.steps@[step_id as int].red_flags@;
        self.steps[step_id].red_flags.append(&mut incidents);
        assert(self.steps@[step_id as int].red_flags@ =~= before + added);
        assert(final(self).steps@[step_id as int].wf());
    }

    /// Records a vote on a step: its margin (winner minus runner-up, at least one) on the
    /// step, and in the ring of the discriminator kind.
    pub fn record_vote(
        &mut self,
        step_id: usize,
        kind: AgentKind,
        winner_votes: usize,
        runner_up_votes: usize,
    )
        requires
            old(self).wf(),
            step_id < old(self).steps@.len(),
        ensures
            final(self).wf(),
            final(self).steps@.len() == old(self).steps@.len(),
            forall|i: int|
                0 <= i < final(self).steps@.len() && i != step_id ==> #[trigger] final(self).steps@[i] == old(self).steps@[i],
            final(self).steps@[step_id as int].vote_margin == Some(
                margin_of(winner_votes as nat, runner_up_votes as nat) as usize,
            ),
            final(self).steps@[step_id as int].red_flags == old(self).steps@[step_id as int].red_flags,
            final(self).steps@[step_id as int].resamples == old(self).steps@[step_id as int].resamples,
            kind != AgentKind::DecompositionDiscriminator ==> final(self).decomposition_votes == old(self).decomposition_votes,
            kind != AgentKind::SolutionDiscriminator ==> final(self).solution_votes == old(self).solution_votes,
            kind == AgentKind::DecompositionDiscriminator ==> final(self).decomposition_votes.recent_margins@
                == pushed_ring(old(self).decomposition_votes.recent_margins@, margin_of(winner_votes as nat, runner_up_votes as nat) as usize),
            kind == AgentKind::SolutionDiscriminator ==> final(self).solution_votes.recent_margins@
                == pushed_ring(old(self).solution_votes.recent_margins@, margin_of(winner_votes as nat, runner_up_votes as nat) as usize),
    {
        let margin = vote_margin(winner_votes, runner_up_votes);
        self.vote_attempts = self.vote_attempts.saturating_add(1);
        self.steps[step_id].vote_margin = Some(margin);
        match kind {
            AgentKind::DecompositionDiscriminator => self.decomposition_votes.push_margin(margin),
            AgentKind::SolutionDiscriminator => self.solution_votes.push_margin(margin),
            _ => {},
        }
        assert(final(self).steps@[step_id as int].wf());
    }

    pub fn record_duration_ms(&mut self, step_id: usize, ms: u128)
        requires
            old(self).wf(),
            step_id < old(self).steps@.len(),
        ensures
            final(self).steps@[step_id as int].samples_requested == old(self).steps@[step_id as int].samples_requested,
            final(self).steps@[step_id as int].samples_retained == old(self).steps@[step_id as int].samples_retained,
            final(self).wf(),
            final(self).only_step_changed(old(self), step_id),
            final(self).steps@[step_id as int].duration_ms == Some(ms),
            final(self).steps@[step_id as int].red_flags == old(self).steps@[step_id as int].red_flags,
            final(self).steps@[step_id as int].resamples == old(self).steps@[step_id as int].resamples,
            final(self).steps@[step_id as int].vote_margin == old(self).steps@[step_id as int].vote_margin,
    {
        self.steps[step_id].duration_ms = Some(ms);
        assert(final(self).steps@[step_id as int].wf());
    }

    pub fn record_verification(&mut self, step_id: usize, passed: bool)
        requires
            old(self).wf(),
            step_id < old(self).steps@.len(),
        ensures
            final(self).wf(),
            final(self).only_step_changed(old(self), step_id),
            final(self).steps@[step_id as int].verification_passed == Some(passed),
            final(self).steps@[step_id as int].vote_margin == old(self).steps@[step_id as int].vote_margin,
    {
        self.steps[step_id].verification_passed = Some(passed);
        assert(final(self).steps@[step_id as int].wf());
    }
}

/// Every step of `old` is still there, with its description.
pub open spec fn descriptions_kept(old: Seq<WorkflowStep>, new: Seq<WorkflowStep>) -> bool {
    &&& new.len() >= old.len()
    &&& forall|i: int| 0 <= i < old.len() ==> (#[trigger] new[i]).description == old[i].description
}

/// The state of a run: the step tree, per-step metrics, the work queue and the wait state.
#[derive(Clone, Debug)]
pub struct WorkflowContext {
    pub session_id: String,
    pub prompt: String,
    pub domain: String,
    pub dry_run: bool,
    pub steps: Vec<WorkflowStep>,
    pub root_step_id: Option<usize>,
    pub current_step: usize,
    pub pending_decompositions: Vec<Option<Vec<DecompositionProposal>>>,
    pub pending_solutions: Vec<Option<Vec<String>>>,
    pub work_queue: VecDeque<WorkItem>,
    pub wait_state: Option<WaitState>,
    pub metrics: WorkflowMetrics,
    pub domain_data: Vec<(String, String)>,
}

impl WorkflowContext {
    /// Ids match positions; a step's parent comes before it, one level up; its children come
    /// after it.
    pub open spec fn tree_wf(&self) -> bool {
        &&& self.steps@.len() < usize::MAX
        &&& (self.root_step_id is None <==> self.steps@.len() == 0)
        &&& self.root_step_id matches Some(r) ==> r == 0
        &&& forall|i: int|
            0 <= i < self.steps@.len() ==> {
                let s = #[trigger] self.steps@[i];
                &&& s.id == i
                &&& s.depth <= i
                &&& s.parent is None <==> i == 0
                &&& s.parent is None ==> s.depth == 0
                &&& s.parent matches Some(p) ==> p < i
            }
        &&& forall|i: int, p: usize|
            #![trigger self.steps@[i].parent, self.steps@[p as int]]
            0 <= i < self.steps@.len() && self.steps@[i].parent == Some(p) ==> self.steps@[i].depth
                == self.steps@[p as int].depth + 1
        &&& forall|i: int, j: int|
            0 <= i < self.steps@.len() && 0 <= j < self.steps@[i].children@.len() ==> i
                < #[trigger] self.steps@[i].children@[j] < self.steps@.len()
    }

    /// A completed step has a winning solution.
    pub open spec fn completed_have_winner(&self) -> bool {
        forall|i: int|
            0 <= i < self.steps@.len() && (#[trigger] self.steps@[i]).status
                == StepStatus::Completed ==> self.steps@[i].winning_solution is Some
    }

    /// A step waits on input only as the step that the wait state names, so at most one
    /// step waits.
    pub open spec fn waiting_matches(&self) -> bool {
        &&& forall|i: int|
            0 <= i < self.steps@.len() && (#[trigger] self.steps@[i]).status
                == StepStatus::WaitingOnInput ==> (self.wait_state matches Some(w) && w.step_id == i)
        &&& self.wait_state matches Some(w) ==> w.step_id < self.steps@.len()
    }

    pub open spec fn queue_wf(&self) -> bool {
        forall|i: int|
            0 <= i < self.work_queue@.len() ==> (#[trigger] self.work_queue@[i]).target()
                < self.steps@.len()
    }

    /// Each key of the domain data appears once.
    pub open spec fn domain_keys_unique(&self) -> bool {
        forall|i: int, j: int|
            0 <= i < j < self.domain_data@.len() ==> (#[trigger] self.domain_data@[i]).0@
                != (#[trigger] self.domain_data@[j]).0@
    }

    pub open spec fn wf(&self) -> bool {
        &&& self.domain_keys_unique()
        &&& self.tree_wf()
        &&& self.completed_have_winner()
        &&& self.waiting_matches()
        &&& self.queue_wf()
        &&& self.metrics.wf()
        &&& self.metrics.steps@.len() == self.steps@.len()
        &&& self.pending_decompositions@.len() == self.steps@.len()
        &&& self.pending_solutions@.len() == self.steps@.len()
    }

    /// Checks the context's invariant, for contexts that come from outside (a store, a file).
    pub fn is_well_formed(&self) -> (r: bool)
        ensures
            r ==> self.wf(),
    {
        let mut a: usize = 0;
        while a < self.domain_data.len()
            invariant
                a <= self.domain_data@.len(),
                forall|x: int, y: int|
                    0 <= x < a && x < y < self.domain_data@.len() ==> (#[trigger] self.domain_data@[x]).0@
                        != (#[trigger] self.domain_data@[y]).0@,
            decreases self.domain_data.len() - a,
        {
            let mut b: usize = a + 1;
            while b < self.domain_data.len()
                invariant
                    a < self.domain_data@.len(),
                    a + 1 <= b <= self.domain_data@.len(),
                    forall|x: int, y: int|
                        0 <= x < a && x < y < self.domain_data@.len() ==> (#[trigger] self.domain_data@[x]).0@
                            != (#[trigger] self.domain_data@[y]).0@,
                    forall|y: int| a < y < b ==> self.domain_data@[a as int].0@ != (#[trigger] self.domain_data@[y]).0@,
                decreases self.domain_data.len() - b,
            {
                if crate::red_flags::same_text(self.domain_data[a].0.as_str(), self.domain_data[b].0.as_str()) {
                    return false;
                }
                b = b + 1;
            }
            a = a + 1;
        }
        let n = self.steps.len();
        if n == usize::MAX || self.metrics.steps.len() != n || self.pending_decompositions.len()
            != n || self.pending_solutions.len() != n {
            return false;
        }
        match self.root_step_id {
            Some(r) => {
                if r != 0 || n == 0 {
                    return false;
                }
            },
            None => {
                if n != 0 {
                    return false;
                }
            },
        }
        if let Some(w) = &self.wait_state {
            if w.step_id >= n {
                return false;
            }
        }
        if self.metrics.decomposition_votes.recent_margins.len() > MARGIN_HISTORY
            || self.metrics.solution_votes.recent_margins.len() > MARGIN_HISTORY {
            return false;
        }
        let mut i: usize = 0;
        while i < n
            invariant
                n == self.steps@.len(),
                n == self.metrics.steps@.len(),
                i <= n,
                forall|j: int|
                    0 <= j < i ==> {
                        let s = #[trigger] self.steps@[j];
                        &&& s.id == j
                        &&& s.depth <= j
                        &&& s.parent is None <==> j == 0
                        &&& s.parent is None ==> s.depth == 0
                        &&& s.parent matches Some(p) ==> p < j
                    },
                forall|j: int, p: usize|
                    #![trigger self.steps@[j].parent, self.steps@[p as int]]
                    0 <= j < i && self.steps@[j].parent == Some(p) ==> self.steps@[j].depth
                        == self.steps@[p as int].depth + 1,
                forall|j: int, c: int|
                    0 <= j < i && 0 <= c < self.steps@[j].children@.len() ==> j
                        < #[trigger] self.steps@[j].children@[c] < n,
                forall|j: int|
                    0 <= j < i && (#[trigger] self.steps@[j]).status == StepStatus::Completed
                        ==> self.steps@[j].winning_solution is Some,
                forall|j: int|
                    0 <= j < i && (#[trigger] self.steps@[j]).status == StepStatus::WaitingOnInput
                        ==> (self.wait_state matches Some(w) && w.step_id == j),
                forall|j: int| 0 <= j < i ==> (#[trigger] self.metrics.steps@[j]).wf(),
            decreases n - i,
        {
            let s = &self.steps[i];
            if s.id != i || s.depth > i {
                return false;
            }
            match s.parent {
                None => {
                    if i != 0 || s.depth != 0 {
                        return false;
                    }
                },
                Some(p) => {
                    if i == 0 || p >= i || s.depth != self.steps[p].depth + 1 {
                        return false;
                    }
                },
            }
            let mut c: usize = 0;
            while c < s.children.len()
                invariant
                    n == self.steps@.len(),
                    i < n,
                    *s == self.steps@[i as int],
                    c <= s.children@.len(),
                    forall|x: int| 0 <= x < c ==> i < #[trigger] s.children@[x] < n,
                decreases s.children.len() - c,
            {
                if s.children[c] <= i || s.children[c] >= n {
                    return false;
                }
                c = c + 1;
            }
            if s.status == StepStatus::Completed && s.winning_solution.is_none() {
                return false;
            }
            if s.status == StepStatus::WaitingOnInput {
                match &self.wait_state {
                    Some(w) => {
                        if w.step_id != i {
                            return false;
                        }
                    },
                    None => {
                        return false;
                    },
                }
            }
            let m = &self.metrics.steps[i];
            if let Some(margin) = m.vote_margin {
                if margin == 0 {
                    return false;
                }
            }
            let mut f: usize = 0;
            while f < m.red_flags.len()
                invariant
                    i < n,
                    *m == self.metrics.steps@[i as int],
                    f <= m.red_flags@.len(),
                    forall|x: int|
                        0 <= x < f ==> (#[trigger] m.red_flags@[x]).sample_preview@.len()
                            <= PREVIEW_LIMIT,
                decreases m.red_flags.len() - f,
            {
                if m.red_flags[f].sample_preview.as_str().unicode_len() > PREVIEW_LIMIT {
                    return false;
                }
                f = f + 1;
            }
            i = i + 1;
        }
        let mut q: usize = 0;
        while q < self.work_queue.len()
            invariant
                n == self.steps@.len(),
                q <= self.work_queue@.len(),
                forall|x: int| 0 <= x < q ==> (#[trigger] self.work_queue@[x]).target() < n,
            decreases self.work_queue.len() - q,
        {
            if self.work_queue[q].step_id() >= n {
                return false;
            }
            q = q + 1;
        }
        true
    }

    /// Sets `key` to `value` in the domain data, replacing an earlier value of that key.
    pub fn set_domain_data(&mut self, key: String, value: String)
        requires
            old(self).wf(),
        ensures
            final(self).session_id == old(self).session_id,
            final(self).prompt == old(self).prompt,
            final(self).domain == old(self).domain,
            final(self).dry_run == old(self).dry_run,
            final(self).wf(),
            final(self).steps == old(self).steps,
            final(self).work_queue == old(self).work_queue,
            final(self).wait_state == old(self).wait_state,
            final(self).root_step_id == old(self).root_step_id,
            exists|i: int|
                0 <= i < final(self).domain_data@.len() && (#[trigger] final(self).domain_data@[i]).0@
                    == key@ && final(self).domain_data@[i].1@ == value@,
    {
        let mut i: usize = 0;
        while i < self.domain_data.len()
            invariant
                i <= self.domain_data@.len(),
                *self == *old(self),
                old(self).wf(),
                forall|j: int| 0 <= j < i ==> (#[trigger] self.domain_data@[j]).0@ != key@,
            decreases self.domain_data.len() - i,
        {
            if crate::red_flags::same_text(self.domain_data[i].0.as_str(), key.as_str()) {
                let ghost kv = key@;
                let ghost vv = value@;
                self.domain_data.set(i, (key, value));
                assert(self.domain_data@[i as int].0@ == kv && self.domain_data@[i as int].1@ == vv);
                assert forall|a: int, b: int|
                    0 <= a < b < self.domain_data@.len() implies (#[trigger] self.domain_data@[a]).0@
                        != (#[trigger] self.domain_data@[b]).0@ by {
                    assert(old(self).domain_data@[i as int].0@ == kv);
                    if a != i && b != i {
                        assert(self.domain_data@[a] == old(self).domain_data@[a]);
                        assert(self.domain_data@[b] == old(self).domain_data@[b]);
                    } else if a == i {
                        assert(self.domain_data@[b] == old(self).domain_data@[b]);
                        assert(old(self).domain_data@[a].0@ != old(self).domain_data@[b].0@);
                    } else {
                        assert(self.domain_data@[a] == old(self).domain_data@[a]);
                        assert(old(self).domain_data@[a].0@ != kv);
                    }
                }
                return;
            }
            i = i + 1;
        }
        let ghost kv = key@;
        let ghost vv = value@;
        self.domain_data.push((key, value));
        assert(self.domain_data@[self.domain_data@.len() - 1].0@ == kv);
        assert forall|a: int, b: int|
            0 <= a < b < self.domain_data@.len() implies (#[trigger] self.domain_data@[a]).0@
                != (#[trigger] self.domain_data@[b]).0@ by {
            assert(self.domain_data@[a] == old(self).domain_data@[a]);
            if b < old(self).domain_data@.len() {
                assert(self.domain_data@[b] == old(self).domain_data@[b]);
            }
        }
    }

    pub open spec fn has_step(&self, id: usize) -> bool {
        id < self.steps@.len()
    }

    pub open spec fn status_of(&self, id: usize) -> StepStatus {
        self.steps@[id as int].status
    }

    /// A new run for `prompt` in `domain`: no steps, no work, no wait.
    pub fn new(prompt: &str, domain: &str) -> (r: Self)
        ensures
            r.wf(),
            r.prompt@ == prompt@,
            r.domain@ == domain@,
            r.session_id@.len() == 0,
            !r.dry_run,
            r.steps@.len() == 0,
            r.work_queue@.len() == 0,
            r.wait_state is None,
    {
        WorkflowContext {
            session_id: String::new(),
            prompt: String::from_str(prompt),
            domain: String::from_str(domain),
            dry_run: false,
            steps: Vec::new(),
            root_step_id: None,
            current_step: 0,
            pending_decompositions: Vec::new(),
            pending_solutions: Vec::new(),
            work_queue: VecDeque::new(),
            wait_state: None,
            metrics: WorkflowMetrics::new(),
            domain_data: Vec::new(),
        }
    }

    pub fn root_step_id(&self) -> (r: Option<usize>)
        ensures
            r == self.root_step_id,
    {
        self.root_step_id
    }

    pub fn step(&self, id: usize) -> (r: Option<&WorkflowStep>)
        ensures
            id < self.steps@.len() ==> r == Some(&self.steps@[id as int]),
            id >= self.steps@.len() ==> r is None,
    {
        if id < self.steps.len() {
            Some(&self.steps[id])
        } else {
            None
        }
    }

    pub fn step_metrics(&self, id: usize) -> (r: Option<&StepMetrics>)
        ensures
            id < self.metrics.steps@.len() ==> r == Some(&self.metrics.steps@[id as int]),
            id >= self.metrics.steps@.len() ==> r is None,
    {
        self.metrics.step_metrics(id)
    }

    pub fn metrics(&self) -> (r: &WorkflowMetrics)
        ensures
            r == &self.metrics,
    {
        &self.metrics
    }

    fn push_step(&mut self, parent: Option<usize>, depth: usize, description: String) -> (r: usize)
        requires
            old(self).wf(),
            parent is None <==> old(self).steps@.len() == 0,
            parent matches Some(p) ==> p < old(self).steps@.len() && depth == old(self).steps@[p as int].depth + 1,
            parent is None ==> depth == 0,
            old(self).steps@.len() + 1 < usize::MAX,
        ensures
            final(self).session_id == old(self).session_id,
            final(self).prompt == old(self).prompt,
            final(self).domain == old(self).domain,
            final(self).dry_run == old(self).dry_run,
            final(self).domain_data == old(self).domain_data,
            forall|i: int|
                0 <= i < old(self).pending_decompositions@.len() ==> #[trigger] final(self).pending_decompositions@[i]
                    == old(self).pending_decompositions@[i],
            forall|i: int|
                0 <= i < old(self).pending_solutions@.len() ==> #[trigger] final(self).pending_solutions@[i]
                    == old(self).pending_solutions@[i],
            r == old(self).steps@.len(),
            final(self).steps@.len() == r + 1,
            final(self).steps@.subrange(0, r as int) == old(self).steps@,
            final(self).steps@[r as int].description == description,
            final(self).steps@[r as int].status == StepStatus::Pending,
            final(self).steps@[r as int].parent == parent,
            final(self).steps@[r as int].depth == depth,
            final(self).steps@[r as int].children@.len() == 0,
            final(self).work_queue == old(self).work_queue,
            final(self).wait_state == old(self).wait_state,
            final(self).prompt == old(self).prompt,
            final(self).dry_run == old(self).dry_run,
            final(self).root_step_id == Some(0usize),
            final(self).metrics.decomposition_votes == old(self).metrics.decomposition_votes,
            final(self).metrics.solution_votes == old(self).metrics.solution_votes,
            forall|i: int|
                0 <= i < r ==> #[trigger] final(self).metrics.steps@[i] == old(self).metrics.steps@[i],
            final(self).tree_wf(),
            final(self).completed_have_winner(),
            final(self).waiting_matches(),
            final(self).queue_wf(),
            final(self).metrics.wf(),
            final(self).metrics.steps@.len() == final(self).steps@.len(),
            final(self).pending_decompositions@.len() == final(self).steps@.len(),
            final(self).pending_solutions@.len() == final(self).steps@.len(),
    {
        let id = self.steps.len();
        proof {
            if let Some(p) = parent {
                assert(self.steps@[p as int].depth <= p);
            }
        }
        self.steps.push(
            WorkflowStep {
                id,
                parent,
                depth,
                description,
                status: StepStatus::Pending,
                children: Vec::new(),
                candidate_solutions: Vec::new(),
                winning_solution: None,
            },
        );
        self.metrics.steps.push(StepMetrics::new());
        self.pending_decompositions.push(None);
        self.pending_solutions.push(None);
        self.root_step_id = Some(0);
        assert(final(self).steps@.subrange(0, id as int) =~= old(self).steps@);
        assert forall|i: int, j: int|
            0 <= i < self.steps@.len() && 0 <= j < self.steps@[i].children@.len() implies i
                < #[trigger] self.steps@[i].children@[j] < self.steps@.len() by {
            if i < id {
                assert(self.steps@[i] == old(self).steps@[i]);
            }
        }
        assert forall|i: int|
            0 <= i < self.metrics.steps@.len() implies (#[trigger] self.metrics.steps@[i]).wf() by {
            if i < id {
                assert(self.metrics.steps@[i] == old(self).metrics.steps@[i]);
            }
        }
        id
    }

    /// The root step's id, creating the root (step 0, depth 0, the session prompt as its
    /// description) when the run has none. Calling it again returns the same id and changes
    /// nothing.
    pub fn ensure_root(&mut self) -> (r: usize)
        requires
            old(self).wf(),
        ensures
            descriptions_kept(old(self).steps@, final(self).steps@),
            final(self).domain_data == old(self).domain_data,
            final(self).session_id == old(self).session_id,
            final(self).prompt == old(self).prompt,
            final(self).domain == old(self).domain,
            final(self).dry_run == old(self).dry_run,
            final(self).wf(),
            r == 0,
            final(self).root_step_id == Some(0usize),
            old(self).root_step_id is Some ==> *final(self) == *old(self),
            old(self).root_step_id is None ==> final(self).steps@.len() == 1 && final(self).steps@[0].description == old(self).prompt && final(self).steps@[0].status
                == StepStatus::Pending && final(self).steps@[0].depth == 0 && final(self).work_queue == old(self).work_queue && final(self).wait_state == old(self).wait_state,
    {
        match self.root_step_id {
            Some(r) => r,
            None => {
                let description = self.prompt.clone();
                self.push_step(None, 0, description)
            },
        }
    }

    /// Appends a child of `parent_id` described by `description`, one level deeper, and lists
    /// it among the parent's children. Fails only when `parent_id` names no step.
    pub fn add_child_step(&mut self, parent_id: usize, description: String) -> (r: Result<
        usize,
        Error,
    >)
        requires
            old(self).wf(),
        ensures
            descriptions_kept(old(self).steps@, final(self).steps@),
            forall|i: int|
                0 <= i < old(self).pending_decompositions@.len() ==> #[trigger] final(self).pending_decompositions@[i]
                    == old(self).pending_decompositions@[i],
            forall|i: int|
                0 <= i < old(self).pending_solutions@.len() ==> #[trigger] final(self).pending_solutions@[i]
                    == old(self).pending_solutions@[i],
            final(self).metrics.decomposition_votes == old(self).metrics.decomposition_votes,
            final(self).metrics.solution_votes == old(self).metrics.solution_votes,
            final(self).root_step_id == old(self).root_step_id || old(self).steps@.len() == 0,
            forall|i: int|
                0 <= i < old(self).metrics.steps@.len() ==> #[trigger] final(self).metrics.steps@[i]
                    == old(self).metrics.steps@[i],
            final(self).dry_run == old(self).dry_run,
            final(self).prompt == old(self).prompt,
            final(self).wf(),
            r is Err <==> (parent_id >= old(self).steps@.len() || old(self).steps@.len() + 2
                >= usize::MAX),
            r is Err ==> *final(self) == *old(self),
            r matches Err(e) ==> e is InvalidState,
            r matches Ok(id) ==> {
                &&& id == old(self).steps@.len()
                &&& final(self).steps@.len() == id + 1
                &&& final(self).steps@[id as int].parent == Some(parent_id)
                &&& final(self).steps@[id as int].description == description
                &&& final(self).steps@[id as int].status == StepStatus::Pending
                &&& final(self).steps@[parent_id as int].children@ == old(self).steps@[parent_id as int].children@.push(id)
                &&& final(self).steps@[parent_id as int].description == old(self).steps@[parent_id as int].description
                &&& final(self).steps@[parent_id as int].status == old(self).steps@[parent_id as int].status
                &&& final(self).steps@[parent_id as int].depth == old(self).steps@[parent_id as int].depth
                &&& final(self).steps@[parent_id as int].winning_solution == old(self).steps@[parent_id as int].winning_solution
                &&& final(self).steps@[id as int].depth == old(self).steps@[parent_id as int].depth + 1
                &&& final(self).work_queue == old(self).work_queue
                &&& final(self).wait_state == old(self).wait_state
                &&& forall|i: int|
                    0 <= i < old(self).steps@.len() && i != parent_id ==> #[trigger] final(self).steps@[i] == old(self).steps@[i]
            },
    {
        if parent_id >= self.steps.len() {
            return Err(Error::InvalidState(String::from_str("unknown parent step")));
        }
        if self.steps.len() >= usize::MAX - 2 {
            return Err(Error::InvalidState(String::from_str("step limit reached")));
        }
        let depth = self.steps[parent_id].depth + 1;
        let id = self.push_step(Some(parent_id), depth, description);
        let ghost mid = self.steps@;
        self.steps[parent_id].children.push(id);
        assert forall|i: int, j: int|
            0 <= i < self.steps@.len() && 0 <= j < self.steps@[i].children@.len() implies i
                < #[trigger] self.steps@[i].children@[j] < self.steps@.len() by {
            if i != parent_id {
                assert(self.steps@[i] == mid[i]);
            } else if j < mid[i].children@.len() {
                assert(self.steps@[i].children@[j] == mid[i].children@[j]);
            }
        }
        assert forall|i: int, p: usize|
            #![trigger self.steps@[i].parent, self.steps@[p as int]]
            0 <= i < self.steps@.len() && self.steps@[i].parent == Some(p) implies self.steps@[i].depth
                == self.steps@[p as int].depth + 1 by {
            assert(self.steps@[i].depth == mid[i].depth);
            assert(self.steps@[i].parent == mid[i].parent);
            assert(mid[i].parent == Some(p));
            assert(self.steps@[p as int].depth == mid[p as int].depth);
        }
        Ok(id)
    }

    pub fn enqueue_work(&mut self, item: WorkItem)
        requires
            old(self).wf(),
            item.target() < old(self).steps@.len(),
        ensures
            descriptions_kept(old(self).steps@, final(self).steps@),
            final(self).domain_data == old(self).domain_data,
            final(self).session_id == old(self).session_id,
            final(self).prompt == old(self).prompt,
            final(self).domain == old(self).domain,
            final(self).dry_run == old(self).dry_run,
            final(self).root_step_id == old(self).root_step_id,
            final(self).pending_decompositions == old(self).pending_decompositions,
            final(self).pending_solutions == old(self).pending_solutions,
            final(self).dry_run == old(self).dry_run,
            final(self).prompt == old(self).prompt,
            final(self).wf(),
            final(self).work_queue@ == old(self).work_queue@.push(item),
            final(self).steps == old(self).steps,
            final(self).wait_state == old(self).wait_state,
            final(self).metrics == old(self).metrics,
    {
        self.work_queue.push_back(item);
    }

    pub fn enqueue_work_front(&mut self, item: WorkItem)
        requires
            old(self).wf(),
            item.target() < old(self).steps@.len(),
        ensures
            descriptions_kept(old(self).steps@, final(self).steps@),
            final(self).root_step_id == old(self).root_step_id,
            final(self).pending_decompositions == old(self).pending_decompositions,
            final(self).pending_solutions == old(self).pending_solutions,
            final(self).dry_run == old(self).dry_run,
            final(self).prompt == old(self).prompt,
            final(self).wf(),
            final(self).work_queue@ == seq![item] + old(self).work_queue@,
            final(self).steps == old(self).steps,
            final(self).wait_state == old(self).wait_state,
            final(self).metrics == old(self).metrics,
    {
        self.work_queue.push_front(item);
        assert forall|i: int| 0 <= i < self.work_queue@.len() implies (#[trigger] self.work_queue@[i]).target()
            < self.steps@.len() by {
            if i > 0 {
                assert(self.work_queue@[i] == old(self).work_queue@[i - 1]);
            }
        }
    }

    pub fn dequeue_work(&mut self) -> (r: Option<WorkItem>)
        requires
            old(self).wf(),
        ensures
            descriptions_kept(old(self).steps@, final(self).steps@),
            final(self).root_step_id == old(self).root_step_id,
            final(self).pending_decompositions == old(self).pending_decompositions,
            final(self).pending_solutions == old(self).pending_solutions,
            final(self).dry_run == old(self).dry_run,
            final(self).prompt == old(self).prompt,
            final(self).wf(),
            old(self).work_queue@.len() == 0 ==> r is None && final(self).work_queue@ == old(self).work_queue@,
            old(self).work_queue@.len() > 0 ==> r == Some(old(self).work_queue@[0]) && final(self).work_queue@ == old(self).work_queue@.drop_first(),
            final(self).steps == old(self).steps,
            final(self).wait_state == old(self).wait_state,
            final(self).metrics == old(self).metrics,
    {
        let r = self.work_queue.pop_front();
        assert forall|i: int| 0 <= i < self.work_queue@.len() implies (#[trigger] self.work_queue@[i]).target()
            < self.steps@.len() by {
            assert(self.work_queue@[i] == old(self).work_queue@[i + 1]);
        }
        proof {
            if old(self).work_queue@.len() > 0 {
                assert(final(self).work_queue@ =~= old(self).work_queue@.drop_first());
            }
        }
        r
    }

    pub fn has_pending_work(&self) -> (r: bool)
        ensures
            r == (self.work_queue@.len() > 0),
    {
        self.work_queue.len() > 0
    }

    /// Erases the wait state; a step that was waiting on input goes back to `Pending`.
    pub fn clear_wait_state(&mut self)
        requires
            old(self).wf(),
        ensures
            descriptions_kept(old(self).steps@, final(self).steps@),
            final(self).dry_run == old(self).dry_run,
            final(self).prompt == old(self).prompt,
            final(self).wf(),
            final(self).wait_state is None,
            final(self).work_queue == old(self).work_queue,
            final(self).steps@.len() == old(self).steps@.len(),
            forall|i: int|
                0 <= i < old(self).steps@.len() && old(self).steps@[i].status
                    == StepStatus::WaitingOnInput ==> #[trigger] final(self).steps@[i].status
                    == StepStatus::Pending,
            forall|i: int|
                0 <= i < old(self).steps@.len() && old(self).steps@[i].status
                    != StepStatus::WaitingOnInput ==> #[trigger] final(self).steps@[i] == old(self).steps@[i],
            final(self).metrics == old(self).metrics,
            final(self).pending_decompositions == old(self).pending_decompositions,
            final(self).pending_solutions == old(self).pending_solutions,
            final(self).root_step_id == old(self).root_step_id,
    {
        match &self.wait_state {
            Some(w) => {
                let id = w.step_id;
                if self.steps[id].status == StepStatus::WaitingOnInput {
                    self.steps[id].status = StepStatus::Pending;
                }
            },
            None => {},
        }
        self.wait_state = None;
    }

    /// Records a wait on `step_id` and puts that step in `WaitingOnInput`; a previous wait is
    /// cleared first.
    pub fn set_wait_state(&mut self, step_id: usize, trigger: String, details: String)
        requires
            old(self).wf(),
            step_id < old(self).steps@.len(),
        ensures
            descriptions_kept(old(self).steps@, final(self).steps@),
            final(self).dry_run == old(self).dry_run,
            final(self).prompt == old(self).prompt,
            final(self).wf(),
            final(self).wait_state == Some(WaitState { step_id, trigger, details }),
            final(self).steps@[step_id as int].status == StepStatus::WaitingOnInput,
            final(self).work_queue == old(self).work_queue,
            final(self).steps@.len() == old(self).steps@.len(),
            forall|i: int|
                0 <= i < old(self).steps@.len() && i != step_id && old(self).steps@[i].status
                    != StepStatus::WaitingOnInput ==> #[trigger] final(self).steps@[i] == old(self).steps@[i],
            final(self).metrics == old(self).metrics,
            final(self).pending_decompositions == old(self).pending_decompositions,
            final(self).pending_solutions == old(self).pending_solutions,
            final(self).root_step_id == old(self).root_step_id,
    {
        self.clear_wait_state();
        self.steps[step_id].status = StepStatus::WaitingOnInput;
        self.wait_state = Some(WaitState { step_id, trigger, details });
    }

    /// Records a checkpoint on `step_id`: a wait that leaves every step's status as it is.
    pub fn set_checkpoint(&mut self, step_id: usize, trigger: String, details: String)
        requires
            old(self).wf(),
            step_id < old(self).steps@.len(),
        ensures
            descriptions_kept(old(self).steps@, final(self).steps@),
            final(self).root_step_id == old(self).root_step_id,
            final(self).pending_decompositions == old(self).pending_decompositions,
            final(self).pending_solutions == old(self).pending_solutions,
            final(self).dry_run == old(self).dry_run,
            final(self).prompt == old(self).prompt,
            final(self).wf(),
            final(self).wait_state == Some(WaitState { step_id, trigger, details }),
            final(self).work_queue == old(self).work_queue,
            final(self).steps@.len() == old(self).steps@.len(),
            old(self).wait_state is None ==> final(self).steps@ == old(self).steps@,
    {
        self.clear_wait_state();
        proof {
            if old(self).wait_state is None {
                assert forall|i: int| 0 <= i < self.steps@.len() implies self.steps@[i] == old(self).steps@[i] by {
                    assert(old(self).steps@[i].status != StepStatus::WaitingOnInput);
                }
                assert(self.steps@ =~= old(self).steps@);
            }
        }
        self.wait_state = Some(WaitState { step_id, trigger, details });
    }

    /// Sets a step's status. `Completed` needs a winning solution; a wait goes through
    /// `set_wait_state`.
    pub fn mark_step_status(&mut self, step_id: usize, status: StepStatus)
        requires
            old(self).wf(),
            step_id < old(self).steps@.len(),
            status != StepStatus::WaitingOnInput,
            status == StepStatus::Completed ==> old(self).steps@[step_id as int].winning_solution is Some,
        ensures
            descriptions_kept(old(self).steps@, final(self).steps@),
            final(self).pending_decompositions == old(self).pending_decompositions,
            final(self).pending_solutions == old(self).pending_solutions,
            final(self).root_step_id == old(self).root_step_id,
            final(self).wf(),
            final(self).steps@.len() == old(self).steps@.len(),
            final(self).steps@[step_id as int].status == status,
            final(self).steps@[step_id as int].winning_solution == old(self).steps@[step_id as int].winning_solution,
            final(self).steps@[step_id as int].description == old(self).steps@[step_id as int].description,
            forall|i: int|
                0 <= i < old(self).steps@.len() && i != step_id ==> #[trigger] final(self).steps@[i]
                    == old(self).steps@[i],
            final(self).work_queue == old(self).work_queue,
            final(self).wait_state == old(self).wait_state,
            final(self).metrics == old(self).metrics,
            final(self).dry_run == old(self).dry_run,
    {
        self.steps[step_id].status = status;
    }

    /// Records the winning solution of a step and completes it.
    pub fn mark_step_solution(&mut self, step_id: usize, solution: String)
        requires
            old(self).wf(),
            step_id < old(self).steps@.len(),
        ensures
            descriptions_kept(old(self).steps@, final(self).steps@),
            final(self).pending_decompositions == old(self).pending_decompositions,
            final(self).pending_solutions == old(self).pending_solutions,
            final(self).root_step_id == old(self).root_step_id,
            final(self).dry_run == old(self).dry_run,
            final(self).prompt == old(self).prompt,
            final(self).wf(),
            final(self).steps@.len() == old(self).steps@.len(),
            final(self).steps@[step_id as int].status == StepStatus::Completed,
            final(self).steps@[step_id as int].winning_solution == Some(solution),
            forall|i: int|
                0 <= i < old(self).steps@.len() && i != step_id ==> #[trigger] final(self).steps@[i]
                    == old(self).steps@[i],
            final(self).work_queue == old(self).work_queue,
            final(self).wait_state == old(self).wait_state,
            final(self).metrics == old(self).metrics,
    {
        self.steps[step_id].winning_solution = Some(solution);
        self.steps[step_id].status = StepStatus::Completed;
    }

    /// Hands proposals for a step to its vote.
    pub fn register_decomposition(&mut self, step_id: usize, proposals: Vec<DecompositionProposal>)
        requires
            old(self).wf(),
            step_id < old(self).steps@.len(),
        ensures
            descriptions_kept(old(self).steps@, final(self).steps@),
            final(self).root_step_id == old(self).root_step_id,
            final(self).dry_run == old(self).dry_run,
            final(self).prompt == old(self).prompt,
            final(self).wf(),
            final(self).pending_decompositions@[step_id as int] == Some(proposals),
            final(self).steps == old(self).steps,
            final(self).work_queue == old(self).work_queue,
            final(self).wait_state == old(self).wait_state,
            final(self).metrics == old(self).metrics,
    {
        self.pending_decompositions.set(step_id, Some(proposals));
    }

    /// Takes the proposals registered for a step, leaving none.
    pub fn take_decomposition(&mut self, step_id: usize) -> (r: Option<Vec<DecompositionProposal>>)
        requires
            old(self).wf(),
        ensures
            descriptions_kept(old(self).steps@, final(self).steps@),
            final(self).root_step_id == old(self).root_step_id,
            final(self).pending_solutions == old(self).pending_solutions,
            final(self).dry_run == old(self).dry_run,
            final(self).prompt == old(self).prompt,
            final(self).wf(),
            step_id < old(self).steps@.len() ==> r == old(self).pending_decompositions@[step_id as int],
            step_id >= old(self).steps@.len() ==> r is None,
            step_id < old(self).steps@.len() ==> final(self).pending_decompositions@[step_id as int] is None,
            final(self).steps == old(self).steps,
            final(self).work_queue == old(self).work_queue,
            final(self).wait_state == old(self).wait_state,
            final(self).metrics == old(self).metrics,
    {
        if step_id >= self.pending_decompositions.len() {
            return None;
        }
        let mut slot: Option<Vec<DecompositionProposal>> = None;
        std::mem::swap(&mut slot, &mut self.pending_decompositions[step_id]);
        slot
    }

    /// Records a step's candidate solutions and hands them to its vote.
    pub fn register_solutions(&mut self, step_id: usize, solutions: Vec<String>)
        requires
            old(self).wf(),
            step_id < old(self).steps@.len(),
        ensures
            descriptions_kept(old(self).steps@, final(self).steps@),
            final(self).root_step_id == old(self).root_step_id,
            final(self).dry_run == old(self).dry_run,
            final(self).prompt == old(self).prompt,
            final(self).wf(),
            final(self).pending_solutions@[step_id as int] == Some(solutions),
            final(self).steps@.len() == old(self).steps@.len(),
            final(self).steps@[step_id as int].candidate_solutions@ == solutions@,
            final(self).steps@[step_id as int].status == old(self).steps@[step_id as int].status,
            forall|i: int|
                0 <= i < old(self).steps@.len() && i != step_id ==> #[trigger] final(self).steps@[i]
                    == old(self).steps@[i],
            final(self).work_queue == old(self).work_queue,
            final(self).wait_state == old(self).wait_state,
            final(self).metrics == old(self).metrics,
    {
        let copy = solutions.clone();
        let mut candidates: Vec<String> = Vec::new();
        let mut i: usize = 0;
        while i < copy.len()
            invariant
                i <= copy.len(),
                copy@.len() == solutions@.len(),
                forall|j: int| 0 <= j < copy@.len() ==> #[trigger] copy@[j] == solutions@[j],
                candidates@ =~= solutions@.take(i as int),
            decreases copy.len() - i,
        {
            candidates.push(copy[i].clone());
            i = i + 1;
        }
        self.steps[step_id].candidate_solutions = candidates;
        self.pending_solutions.set(step_id, Some(solutions));
    }

    /// Takes the candidate solutions registered for a step, leaving none.
    pub fn take_solutions(&mut self, step_id: usize) -> (r: Option<Vec<String>>)
        requires
            old(self).wf(),
        ensures
            descriptions_kept(old(self).steps@, final(self).steps@),
            step_id < old(self).steps@.len() ==> final(self).pending_solutions@[step_id as int] is None,
            final(self).root_step_id == old(self).root_step_id,
            final(self).dry_run == old(self).dry_run,
            final(self).prompt == old(self).prompt,
            final(self).wf(),
            step_id < old(self).steps@.len() ==> r == old(self).pending_solutions@[step_id as int],
            step_id >= old(self).steps@.len() ==> r is None,
            final(self).steps == old(self).steps,
            final(self).work_queue == old(self).work_queue,
            final(self).wait_state == old(self).wait_state,
            final(self).metrics == old(self).metrics,
    {
        if step_id >= self.pending_solutions.len() {
            return None;
        }
        let mut slot: Option<Vec<String>> = None;
        std::mem::swap(&mut slot, &mut self.pending_solutions[step_id]);
        slot
    }
}

} // verus!
