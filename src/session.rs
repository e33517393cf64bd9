use vstd::prelude::*;

use crate::domain::{StepStatus, WaitState, WorkflowContext};
use crate::error::Error;
use crate::runner::RunnerOutcome;
use crate::red_flags::same_text;

verus! {

/// The stored state of a session.
#[derive(Debug, Clone, Copy, PartialEq, Eq, Structural)]
pub enum SessionStatus {
    Running,
    Paused,
    Completed,
    Failed,
}

/// The stored name of each status.
pub open spec fn status_name(s: SessionStatus) -> Seq<char> {
    match s {
        SessionStatus::Running => "running"@,
        SessionStatus::Paused => "paused"@,
        SessionStatus::Completed => "completed"@,
        SessionStatus::Failed => "failed"@,
    }
}

impl SessionStatus {
    pub fn as_str(self) -> (r: &'static str)
        ensures
            r@ == status_name(self),
    {
        match self {
            SessionStatus::Running => "running",
            SessionStatus::Paused => "paused",
            SessionStatus::Completed => "completed",
            SessionStatus::Failed => "failed",
        }
    }

    /// The status a stored name stands for.
    pub fn from_str(value: &str) -> (r: Option<SessionStatus>)
        ensures
            r matches Some(s) ==> status_name(s) == value@,
            r is None ==> forall|s: SessionStatus| status_name(s) != value@,
    {
        proof {
            reveal_strlit("running");
            reveal_strlit("paused");
            reveal_strlit("completed");
            reveal_strlit("failed");
        }
        if same_text(value, "running") {
            Some(SessionStatus::Running)
        } else if same_text(value, "paused") {
            Some(SessionStatus::Paused)
        } else if same_text(value, "completed") {
            Some(SessionStatus::Completed)
        } else if same_text(value, "failed") {
            Some(SessionStatus::Failed)
        } else {
            None
        }
    }
}

/// A session can be resumed only from `Paused` or `Failed`.
pub fn check_resumable(status: SessionStatus) -> (r: Result<(), Error>)
    ensures
        r is Ok <==> (status == SessionStatus::Paused || status == SessionStatus::Failed),
        r matches Err(e) ==> e is InvalidState,
{
    match status {
        SessionStatus::Paused | SessionStatus::Failed => Ok(()),
        _ => Err(Error::InvalidState(String::from_str("only paused or failed sessions can be resumed"))),
    }
}

/// The status a session is saved with after a run of the runner.
pub fn status_after(outcome: &Result<RunnerOutcome, Error>) -> (r: SessionStatus)
    ensures
        outcome matches Ok(RunnerOutcome::Completed) ==> r == SessionStatus::Completed,
        outcome matches Ok(RunnerOutcome::Paused(_)) ==> r == SessionStatus::Paused,
        outcome is Err ==> r == SessionStatus::Failed,
{
    match outcome {
        Ok(RunnerOutcome::Completed) => SessionStatus::Completed,
        Ok(RunnerOutcome::Paused(_)) => SessionStatus::Paused,
        Err(_) => SessionStatus::Failed,
    }
}

/// The settings a session was run with.
#[derive(Debug, Clone)]
pub struct SessionMetadata {
    pub config_path: String,
    pub llm_provider: String,
    pub llm_model: String,
    pub max_concurrent_llm: usize,
    pub samples: usize,
    pub k: usize,
    pub adaptive_k: bool,
    pub human_low_margin_threshold: usize,
}

impl SessionMetadata {
    pub fn describe_provider(&self) -> (r: &str)
        ensures
            r@ == self.llm_provider@,
    {
        self.llm_provider.as_str()
    }
}

/// The low-margin threshold of sessions stored without one.
pub fn default_low_margin_threshold() -> (r: usize)
    ensures
        r == 1,
{
    1
}

/// A stored session: its context and its settings.
#[derive(Debug, Clone)]
pub struct SessionEnvelope {
    pub context: WorkflowContext,
    pub metadata: SessionMetadata,
}

#[derive(Debug, Clone)]
pub struct SessionSummary {
    pub session_id: String,
    pub status: SessionStatus,
    pub prompt: String,
    pub domain: String,
    pub updated_at: i64,
}

#[derive(Debug, Clone)]
pub struct SessionRecord {
    pub envelope: SessionEnvelope,
    pub status: SessionStatus,
    pub updated_at: i64,
}

// ---------------------------------------------------------------- use cases

#[derive(Debug, Clone)]
pub struct RunSessionRequest {
    pub prompt: String,
    pub domain: String,
    pub config_path: String,
    pub llm_provider: String,
    pub llm_model: String,
    pub api_key: Option<String>,
    pub samples: usize,
    pub k: usize,
    pub adaptive_k: bool,
    pub max_concurrent_llm: usize,
    pub dry_run: bool,
    pub step_by_step: bool,
    pub human_low_margin_threshold: usize,
    pub output_dir: Option<String>,
}

#[derive(Debug, Clone)]
pub struct ResumeSessionRequest {
    pub session_id: String,
    pub config_path: Option<String>,
    pub llm_provider: Option<String>,
    pub llm_model: Option<String>,
    pub api_key: Option<String>,
    pub samples: Option<usize>,
    pub k: Option<usize>,
    pub max_concurrent_llm: Option<usize>,
    pub human_low_margin_threshold: Option<usize>,
}

#[derive(Debug, Clone)]
pub struct SubprocessRequest {
    pub domain: String,
    pub config_path: String,
    pub step: String,
    pub context_json: Option<String>,
    pub llm_provider: String,
    pub llm_model: String,
    pub api_key: Option<String>,
    pub samples: usize,
    pub k: usize,
    pub max_concurrent_llm: usize,
}

#[derive(Debug, Clone)]
pub struct PauseInfo {
    pub step_id: usize,
    pub trigger: String,
    pub details: String,
}

#[derive(Debug, Clone)]
pub struct SessionOutcome {
    pub session_id: String,
    pub completed: bool,
    pub paused: bool,
    pub pause_reason: Option<PauseInfo>,
}

#[derive(Debug, Clone)]
pub struct SubprocessMetrics {
    pub samples_requested: usize,
    pub samples_accepted: usize,
    pub vote_margin: Option<usize>,
}

#[derive(Debug, Clone)]
pub struct SubprocessOutcome {
    pub session_id: String,
    pub step_id: usize,
    pub candidate_solutions: Vec<String>,
    pub winning_solution: Option<String>,
    pub metrics: Option<SubprocessMetrics>,
}

#[derive(Debug, Clone)]
pub struct SessionMetadataInfo {
    pub config_path: String,
    pub llm_provider: String,
    pub llm_model: String,
    pub samples: usize,
    pub k: usize,
}

#[derive(Debug, Clone)]
pub struct SessionDetail {
    pub session_id: String,
    pub domain: String,
    pub prompt: String,
    pub status: String,
    pub updated_at: String,
    pub steps_completed: usize,
    pub wait_state: Option<PauseInfo>,
    pub metadata: SessionMetadataInfo,
}

#[derive(Debug, Clone)]
pub struct DryRunResult {
    pub model: String,
    pub response: String,
}

/// The session use cases that driving adapters (the command line, the HTTP surface) call.
pub trait WorkflowService {
    fn run_session(&self, request: RunSessionRequest) -> Result<SessionOutcome, Error>;

    fn resume_session(&self, request: ResumeSessionRequest) -> Result<SessionOutcome, Error>;

    fn run_subprocess(&self, request: SubprocessRequest) -> Result<SubprocessOutcome, Error>;

    fn get_session(&self, session_id: &String) -> Result<Option<SessionDetail>, Error>;

    fn list_sessions(&self, limit: usize) -> Result<Vec<SessionSummary>, Error>;

    fn dry_run_probe(&self, request: &RunSessionRequest) -> Result<DryRunResult, Error>;
}

/// What a caller of the session use cases learns of a run: completed, or paused and why.
pub fn outcome_from_runner_result(session_id: &String, result: RunnerOutcome) -> (r: SessionOutcome)
    ensures
        r.session_id == *session_id,
        result matches RunnerOutcome::Completed ==> r.completed && !r.paused && r.pause_reason is None,
        result matches RunnerOutcome::Paused(w) ==> !r.completed && r.paused && (r.pause_reason matches Some(p)
            && p.step_id == w.step_id && p.trigger == w.trigger && p.details == w.details),
{
    match result {
        RunnerOutcome::Completed => SessionOutcome {
            session_id: session_id.clone(),
            completed: true,
            paused: false,
            pause_reason: None,
        },
        RunnerOutcome::Paused(wait) => SessionOutcome {
            session_id: session_id.clone(),
            completed: false,
            paused: true,
            pause_reason: Some(
                PauseInfo { step_id: wait.step_id, trigger: wait.trigger, details: wait.details },
            ),
        },
    }
}

/// The settings of a resumed session: each one the request gives, else the stored one. The
/// adaptive flag is kept as stored.
pub fn resume_metadata(request: &ResumeSessionRequest, previous: &SessionMetadata) -> (r: SessionMetadata)
    ensures
        r.config_path == (match request.config_path { Some(p) => p, None => previous.config_path }),
        r.llm_provider == (match request.llm_provider { Some(p) => p, None => previous.llm_provider }),
        r.llm_model == (match request.llm_model { Some(m) => m, None => previous.llm_model }),
        r.max_concurrent_llm == (match request.max_concurrent_llm { Some(m) => m, None => previous.max_concurrent_llm }),
        r.samples == (match request.samples { Some(s) => s, None => previous.samples }),
        r.k == (match request.k { Some(k) => k, None => previous.k }),
        r.adaptive_k == previous.adaptive_k,
        r.human_low_margin_threshold == (match request.human_low_margin_threshold { Some(t) => t, None => previous.human_low_margin_threshold }),
{
    SessionMetadata {
        config_path: match &request.config_path {
            Some(p) => p.clone(),
            None => previous.config_path.clone(),
        },
        llm_provider: match &request.llm_provider {
            Some(p) => p.clone(),
            None => previous.llm_provider.clone(),
        },
        llm_model: match &request.llm_model {
            Some(m) => m.clone(),
            None => previous.llm_model.clone(),
        },
        max_concurrent_llm: match request.max_concurrent_llm {
            Some(m) => m,
            None => previous.max_concurrent_llm,
        },
        samples: match request.samples {
            Some(s) => s,
            None => previous.samples,
        },
        k: match request.k {
            Some(k) => k,
            None => previous.k,
        },
        adaptive_k: previous.adaptive_k,
        human_low_margin_threshold: match request.human_low_margin_threshold {
            Some(t) => t,
            None => previous.human_low_margin_threshold,
        },
    }
}

// ---------------------------------------------------------------- exports

/// Number of completed steps among `steps`.
pub open spec fn completed_count(steps: Seq<crate::domain::WorkflowStep>) -> nat
    decreases steps.len(),
{
    if steps.len() == 0 {
        0
    } else {
        completed_count(steps.drop_last()) + if steps.last().status == StepStatus::Completed {
            1nat
        } else {
            0nat
        }
    }
}

pub fn count_completed_steps(ctx: &WorkflowContext) -> (r: usize)
    ensures
        r == completed_count(ctx.steps@),
{
    let mut n: usize = 0;
    let mut i: usize = 0;
    assert(ctx.steps@.take(0) =~= Seq::<crate::domain::WorkflowStep>::empty());
    while i < ctx.steps.len()
        invariant
            i <= ctx.steps@.len(),
            n == completed_count(ctx.steps@.take(i as int)),
            n <= i,
        decreases ctx.steps.len() - i,
    {
        assert(ctx.steps@.take(i + 1).drop_last() =~= ctx.steps@.take(i as int));
        if ctx.steps[i].status == StepStatus::Completed {
            n = n + 1;
        }
        i = i + 1;
    }
    assert(ctx.steps@.take(ctx.steps@.len() as int) =~= ctx.steps@);
    n
}

#[derive(Debug, Clone)]
pub struct SessionSummaryExport {
    pub session_id: String,
    pub status: String,
    pub prompt: String,
    pub domain: String,
    pub updated_at: i64,
}

impl SessionSummaryExport {
    pub fn from_summary(value: SessionSummary) -> (r: Self)
        ensures
            r.session_id == value.session_id,
            r.status@ == status_name(value.status),
            r.prompt == value.prompt,
            r.domain == value.domain,
            r.updated_at == value.updated_at,
    {
        SessionSummaryExport {
            session_id: value.session_id,
            status: String::from_str(value.status.as_str()),
            prompt: value.prompt,
            domain: value.domain,
            updated_at: value.updated_at,
        }
    }
}

#[derive(Debug, Clone)]
pub struct SessionListExport {
    pub sessions: Vec<SessionSummaryExport>,
}

impl SessionListExport {
    pub fn from_summaries(summaries: Vec<SessionSummary>) -> (r: Self)
        ensures
            r.sessions@.len() == summaries@.len(),
            forall|i: int|
                0 <= i < r.sessions@.len() ==> (#[trigger] r.sessions@[i]).session_id
                    == summaries@[i].session_id && r.sessions@[i].status@ == status_name(
                    summaries@[i].status,
                ) && r.sessions@[i].updated_at == summaries@[i].updated_at,
    {
        let mut sessions: Vec<SessionSummaryExport> = Vec::new();
        let mut i: usize = 0;
        while i < summaries.len()
            invariant
                i <= summaries.len(),
                sessions@.len() == i,
                forall|j: int|
                    0 <= j < i ==> (#[trigger] sessions@[j]).session_id == summaries@[j].session_id
                        && sessions@[j].status@ == status_name(summaries@[j].status)
                        && sessions@[j].updated_at == summaries@[j].updated_at,
            decreases summaries.len() - i,
        {
            sessions.push(SessionSummaryExport::from_summary(summaries[i].clone_summary()));
            i = i + 1;
        }
        SessionListExport { sessions }
    }
}

impl SessionSummary {
    pub fn clone_summary(&self) -> (r: Self)
        ensures
            r == *self,
    {
        SessionSummary {
            session_id: self.session_id.clone(),
            status: self.status,
            prompt: self.prompt.clone(),
            domain: self.domain.clone(),
            updated_at: self.updated_at,
        }
    }
}

#[derive(Debug, Clone)]
pub struct PendingProposals {
    pub step_id: usize,
    pub proposals: Vec<crate::domain::DecompositionProposal>,
}

fn copy_strings(v: &Vec<String>) -> (r: Vec<String>)
    ensures
        r@ == v@,
{
    let mut out: Vec<String> = Vec::new();
    let mut i: usize = 0;
    while i < v.len()
        invariant
            i <= v.len(),
            out@ =~= v@.take(i as int),
        decreases v.len() - i,
    {
        out.push(v[i].clone());
        i = i + 1;
    }
    assert(v@.take(v@.len() as int) =~= v@);
    out
}

/// Same proposals: ids, raw texts and subtasks.
pub open spec fn same_proposals(a: Seq<crate::domain::DecompositionProposal>, b: Seq<crate::domain::DecompositionProposal>) -> bool {
    &&& a.len() == b.len()
    &&& forall|i: int|
        0 <= i < a.len() ==> (#[trigger] a[i]).id == b[i].id && a[i].raw == b[i].raw && a[i].subtasks@
            == b[i].subtasks@
}

fn copy_proposals(v: &Vec<crate::domain::DecompositionProposal>) -> (r: Vec<crate::domain::DecompositionProposal>)
    ensures
        same_proposals(r@, v@),
{
    let mut out: Vec<crate::domain::DecompositionProposal> = Vec::new();
    let mut i: usize = 0;
    while i < v.len()
        invariant
            i <= v.len(),
            out@.len() == i,
            forall|j: int|
                0 <= j < i ==> (#[trigger] out@[j]).id == v@[j].id && out@[j].raw == v@[j].raw
                    && out@[j].subtasks@ == v@[j].subtasks@,
        decreases v.len() - i,
    {
        let p = &v[i];
        out.push(crate::domain::DecompositionProposal { id: p.id, raw: p.raw.clone(), subtasks: copy_strings(&p.subtasks) });
        i = i + 1;
    }
    out
}

fn copy_wait(w: &Option<WaitState>) -> (r: Option<WaitState>)
    ensures
        r == *w,
{
    match w {
        Some(w) => Some(WaitState { step_id: w.step_id, trigger: w.trigger.clone(), details: w.details.clone() }),
        None => None,
    }
}

/// The context a single-step run starts from: the step is the prompt and the root, its solving
/// is queued, and the extra context is kept as domain data under `context_json`.
pub fn subprocess_context(request: &SubprocessRequest, session_id: String) -> (r: WorkflowContext)
    ensures
        r.wf(),
        r.session_id == session_id,
        r.prompt@ == request.step@,
        r.domain@ == request.domain@,
        !r.dry_run,
        r.steps@.len() == 1,
        r.steps@[0].description@ == request.step@,
        r.root_step_id == Some(0usize),
        r.work_queue@ == seq![crate::domain::WorkItem::Solve { step_id: 0 }],
        r.wait_state is None,
        request.context_json matches Some(c) ==> exists|i: int|
            0 <= i < r.domain_data@.len() && (#[trigger] r.domain_data@[i]).0@ == "context_json"@
                && r.domain_data@[i].1@ == c@,
{
    let mut ctx = WorkflowContext::new(request.step.as_str(), request.domain.as_str());
    ctx.session_id = session_id;
    proof {
        reveal_strlit("context_json");
    }
    if let Some(extra) = &request.context_json {
        ctx.set_domain_data(String::from_str("context_json"), extra.clone());
    }
    let root = ctx.ensure_root();
    ctx.enqueue_work(crate::domain::WorkItem::Solve { step_id: root });
    assert(ctx.work_queue@ =~= seq![crate::domain::WorkItem::Solve { step_id: 0 }]);
    ctx
}

/// What a single-step run reports: the root's candidates, winner and metrics once the run
/// completes; a pause or an error of the run is a `System` error.
pub fn subprocess_outcome(ctx: &WorkflowContext, session_id: String, result: Result<RunnerOutcome, Error>) -> (r: Result<SubprocessOutcome, Error>)
    requires
        ctx.wf(),
        ctx.steps@.len() >= 1,
    ensures
        !(result matches Ok(RunnerOutcome::Completed)) ==> (r matches Err(e) && e is System),
        result matches Ok(RunnerOutcome::Completed) ==> (r matches Ok(o) && o.session_id == session_id
            && o.step_id == 0 && o.candidate_solutions@ == ctx.steps@[0].candidate_solutions@
            && o.winning_solution == ctx.steps@[0].winning_solution && (o.metrics matches Some(m)
            && m.samples_requested == ctx.metrics.steps@[0].samples_requested && m.samples_accepted
            == ctx.metrics.steps@[0].samples_retained && m.vote_margin == ctx.metrics.steps@[0].vote_margin)),
{
    match result {
        Err(e) => Err(Error::System(e.message())),
        Ok(RunnerOutcome::Paused(w)) => Err(
            Error::System(String::from_str("Subprocess paused at step: ").concat(w.trigger.as_str())),
        ),
        Ok(RunnerOutcome::Completed) => {
            let step = &ctx.steps[0];
            let m = &ctx.metrics.steps[0];
            let winning = match &step.winning_solution {
                Some(w) => Some(w.clone()),
                None => None,
            };
            Ok(SubprocessOutcome {
                session_id,
                step_id: 0,
                candidate_solutions: copy_strings(&step.candidate_solutions),
                winning_solution: winning,
                metrics: Some(SubprocessMetrics {
                    samples_requested: m.samples_requested,
                    samples_accepted: m.samples_retained,
                    vote_margin: m.vote_margin,
                }),
            })
        },
    }
}

/// A session as a dashboard shows it.
#[derive(Debug, Clone)]
pub struct SessionDetailExport {
    pub session_id: String,
    pub status: String,
    pub prompt: String,
    pub domain: String,
    pub updated_at: i64,
    pub wait_state: Option<WaitState>,
    pub pending_decompositions: Option<Vec<crate::domain::DecompositionProposal>>,
    pub pending_solutions: Option<Vec<String>>,
    pub metadata: SessionMetadata,
    pub completed_steps: usize,
    pub total_steps: usize,
    pub steps: Vec<crate::domain::WorkflowStep>,
    pub metrics: crate::domain::WorkflowMetrics,
}

impl SessionDetailExport {
    /// The export of a stored session; the pending proposals and solutions shown are those of
    /// the step the session waits on.
    pub fn from_record(record: &SessionRecord) -> (r: Self)
        ensures
            r.session_id == record.envelope.context.session_id,
            r.status@ == status_name(record.status),
            r.prompt == record.envelope.context.prompt,
            r.domain == record.envelope.context.domain,
            r.updated_at == record.updated_at,
            r.completed_steps == completed_count(record.envelope.context.steps@),
            r.total_steps == record.envelope.context.steps@.len(),
            record.envelope.context.wait_state is None ==> r.pending_decompositions is None
                && r.pending_solutions is None,
            r.wait_state == record.envelope.context.wait_state,
            match record.envelope.context.wait_state {
                Some(w) => (w.step_id < record.envelope.context.pending_solutions@.len() ==> (
                match record.envelope.context.pending_solutions@[w.step_id as int] {
                    Some(v) => r.pending_solutions matches Some(u) && u@ == v@,
                    None => r.pending_solutions is None,
                })) && (w.step_id < record.envelope.context.pending_decompositions@.len() ==> (
                match record.envelope.context.pending_decompositions@[w.step_id as int] {
                    Some(v) => r.pending_decompositions matches Some(u) && same_proposals(u@, v@),
                    None => r.pending_decompositions is None,
                })),
                None => true,
            },
    {
        let context = &record.envelope.context;
        let mut pending_decompositions = None;
        let mut pending_solutions = None;
        if let Some(wait) = &context.wait_state {
            if wait.step_id < context.pending_decompositions.len() {
                if let Some(ps) = &context.pending_decompositions[wait.step_id] {
                    pending_decompositions = Some(copy_proposals(ps));
                }
            }
            if wait.step_id < context.pending_solutions.len() {
                if let Some(ss) = &context.pending_solutions[wait.step_id] {
                    pending_solutions = Some(copy_strings(ss));
                }
            }
        }
        SessionDetailExport {
            session_id: context.session_id.clone(),
            status: String::from_str(record.status.as_str()),
            prompt: context.prompt.clone(),
            domain: context.domain.clone(),
            updated_at: record.updated_at,
            wait_state: copy_wait(&context.wait_state),
            pending_decompositions,
            pending_solutions,
            metadata: record.envelope.metadata.clone(),
            completed_steps: count_completed_steps(context),
            total_steps: context.steps.len(),
            steps: context.steps.clone(),
            metrics: context.metrics.clone(),
        }
    }
}

} // verus!
