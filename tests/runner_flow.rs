use std::cell::RefCell;
use std::collections::VecDeque;

use microfactory::config::{AgentSettings, DomainRuntimeConfig, RedFlaggerConfig};
use microfactory::domain::{AgentKind, StepStatus, WorkflowContext};
use microfactory::error::Error;
use microfactory::ports::{Clock, CommandRunner, FileSystem, LlmClient, PromptRenderer, TelemetrySink};
use microfactory::red_flags::RedFlagPipeline;
use microfactory::runner::{FlowRunner, RunnerOptions, RunnerOutcome};
use microfactory::tasks::collect_samples;

struct ScriptedLlm {
    batches: RefCell<VecDeque<Vec<String>>>,
}

impl ScriptedLlm {
    fn new(script: Vec<Vec<&str>>) -> Self {
        let batches = script
            .into_iter()
            .map(|b| b.into_iter().map(|s| s.to_string()).collect())
            .collect();
        ScriptedLlm { batches: RefCell::new(batches) }
    }
}

impl LlmClient for ScriptedLlm {
    fn chat_completion(&self, _model: &String, _prompt: &String) -> Result<String, Error> {
        let mut guard = self.batches.borrow_mut();
        while let Some(front) = guard.front_mut() {
            if front.is_empty() {
                guard.pop_front();
            } else {
                return Ok(front.remove(0));
            }
        }
        Err(Error::System("No scripted responses left".into()))
    }
}

struct EchoRenderer;

impl PromptRenderer for EchoRenderer {
    fn render(&self, template: &String, body: &String, role: &String) -> Result<String, Error> {
        Ok(format!("{template} [{role}] {body}"))
    }
}

struct MemoryFs {
    writes: RefCell<Vec<(String, String)>>,
}

impl FileSystem for MemoryFs {
    fn read_to_string(&self, path: &String) -> Result<String, Error> {
        Err(Error::FileSystem(format!("no file {path}")))
    }
    fn write(&self, path: &String, content: &String) -> Result<(), Error> {
        self.writes.borrow_mut().push((path.clone(), content.clone()));
        Ok(())
    }
    fn file_exists(&self, _path: &String) -> bool {
        false
    }
    fn create_dir_all(&self, _path: &String) -> Result<(), Error> {
        Ok(())
    }
}

struct TrueShell;

impl CommandRunner for TrueShell {
    fn run_shell(&self, command: &String) -> Result<bool, Error> {
        Ok(command == "true")
    }
}

struct FixedClock;

impl Clock for FixedClock {
    fn now_ms(&self) -> u128 {
        1_000
    }
}

struct Events {
    names: RefCell<Vec<String>>,
}

impl TelemetrySink for Events {
    fn record_event(&self, event_name: &String, _properties: Vec<(String, String)>) {
        self.names.borrow_mut().push(event_name.clone());
    }
}

fn agent(template: &str, samples: Option<usize>, k: Option<usize>) -> AgentSettings {
    AgentSettings {
        prompt_template: template.to_string(),
        model: "m".to_string(),
        samples,
        k,
        red_flaggers: None,
    }
}

fn domain(name: &str, agents: [AgentSettings; 4]) -> DomainRuntimeConfig {
    let [decomposition, decomposition_discriminator, solver, solution_discriminator] = agents;
    DomainRuntimeConfig {
        name: name.to_string(),
        decomposition,
        decomposition_discriminator,
        solver,
        solution_discriminator,
        applier: None,
        verifier: None,
        red_flaggers: Vec::new(),
    }
}

type Runner = FlowRunner<ScriptedLlm, EchoRenderer, MemoryFs, TrueShell, FixedClock, Events>;

fn runner(domains: Vec<DomainRuntimeConfig>, llm: Option<ScriptedLlm>, options: RunnerOptions) -> Runner {
    FlowRunner::new(
        domains,
        llm,
        EchoRenderer,
        options,
        MemoryFs { writes: RefCell::new(Vec::new()) },
        TrueShell,
        FixedClock,
        Events { names: RefCell::new(Vec::new()) },
    )
}

fn demo_domain() -> DomainRuntimeConfig {
    domain(
        "demo",
        [agent("d", None, None), agent("dv", None, None), agent("s", None, None), agent("sv", None, None)],
    )
}

fn completed(ctx: &WorkflowContext) -> usize {
    ctx.steps.iter().filter(|s| s.status == StepStatus::Completed).count()
}

#[test]
fn runner_executes_linear_flow_with_scripted_llm() {
    let code = domain(
        "code",
        [
            agent("decompose", Some(2), None),
            agent("vote-decompose", Some(2), Some(2)),
            agent("solve", Some(2), None),
            agent("vote-solution", Some(2), Some(2)),
        ],
    );
    let llm = ScriptedLlm::new(vec![
        vec!["- step one\n- step two", "- step one\n- step two"],
        vec!["1", "1"],
        vec!["solution one", "solution one alt"],
        vec!["1", "1"],
        vec!["solution two", "solution two alt"],
        vec!["2", "2"],
    ]);
    let options = RunnerOptions {
        default_samples: 2,
        default_k: 2,
        adaptive_k: false,
        max_decomposition_depth: 1,
        min_words_for_decomposition: 3,
        human_red_flag_threshold: 5,
        human_resample_threshold: 5,
        human_low_margin_threshold: 1,
        step_by_step: false,
    };
    let runner = runner(vec![code], Some(llm), options);
    let mut context = WorkflowContext::new("Fix the bug", "code");
    let outcome = runner.execute(&mut context).unwrap();
    assert!(matches!(outcome, RunnerOutcome::Completed));
    assert_eq!(completed(&context), 2, "two subtasks solved");
    let root = context.step(0).unwrap();
    assert_eq!(root.children, vec![1, 2]);
    assert_eq!(context.step(1).unwrap().winning_solution.as_deref(), Some("solution one"));
    assert_eq!(context.step(2).unwrap().winning_solution.as_deref(), Some("solution two alt"));
    assert_eq!(context.step_metrics(1).unwrap().vote_margin, Some(2));
    assert!(context.work_queue.is_empty());
    assert!(context.metrics.decomposition_votes.recent_margins.len() <= 8);
}

#[test]
fn runner_executes_apply_verify_flow() {
    let mut test_verify = domain(
        "test_verify",
        [agent("d", Some(1), None), agent("dv", None, Some(1)), agent("s", Some(1), None), agent("sv", None, Some(1))],
    );
    test_verify.verifier = Some("true".to_string());
    test_verify.applier = Some("patch_file".to_string());
    let llm = ScriptedLlm::new(vec![vec!["- task"], vec!["1"], vec!["sol"], vec!["1"]]);
    let options = RunnerOptions {
        human_low_margin_threshold: 0,
        default_samples: 1,
        ..RunnerOptions::default()
    };
    let runner = runner(vec![test_verify], Some(llm), options);
    let mut context = WorkflowContext::new("Run verify", "test_verify");
    let outcome = runner.execute(&mut context).unwrap();
    assert!(matches!(outcome, RunnerOutcome::Completed));

    let root = context.root_step_id().unwrap();
    let root_step = context.step(root).unwrap();
    assert_eq!(root_step.children.len(), 1);
    let child_id = root_step.children[0];
    let child = context.step(child_id).unwrap();
    assert_eq!(child.status, StepStatus::Completed);
    assert_eq!(child.winning_solution.as_deref(), Some("sol"));
    assert_eq!(context.step_metrics(child_id).unwrap().verification_passed, Some(true));
}

#[test]
fn failing_verifier_fails_the_step() {
    let mut d = domain(
        "v",
        [agent("d", Some(1), None), agent("dv", None, Some(1)), agent("s", Some(1), None), agent("sv", None, Some(1))],
    );
    d.verifier = Some("false".to_string());
    let llm = ScriptedLlm::new(vec![vec!["- task"], vec!["1"], vec!["sol"], vec!["1"]]);
    let options = RunnerOptions { human_low_margin_threshold: 0, default_samples: 1, ..RunnerOptions::default() };
    let runner = runner(vec![d], Some(llm), options);
    let mut context = WorkflowContext::new("Run verify", "v");
    assert!(matches!(runner.execute(&mut context).unwrap(), RunnerOutcome::Completed));
    assert_eq!(context.step(1).unwrap().status, StepStatus::Failed);
    assert_eq!(context.step_metrics(1).unwrap().verification_passed, Some(false));
}

#[test]
fn runner_respects_agent_specific_red_flaggers() {
    let mut strict = domain(
        "strict_check",
        [agent("d", Some(1), None), agent("dv", None, None), agent("s", None, None), agent("sv", None, None)],
    );
    strict.decomposition.red_flaggers = Some(vec![RedFlaggerConfig::Length { max_tokens: 1 }]);
    strict.red_flaggers = vec![RedFlaggerConfig::Length { max_tokens: 100 }];
    let llm = ScriptedLlm::new(vec![vec!["too long response"], vec!["ok"]]);
    let options = RunnerOptions { human_red_flag_threshold: 1, ..RunnerOptions::default() };
    let runner = runner(vec![strict], Some(llm), options);
    let mut context = WorkflowContext::new("Check", "strict_check");
    let outcome = runner.execute(&mut context).unwrap();
    match outcome {
        RunnerOutcome::Paused(wait) => {
            assert_eq!(wait.trigger, "decomposition sampling_red_flags");
            assert_eq!(wait.step_id, 0);
        }
        _ => panic!("Expected execution to pause due to red flags, got {outcome:?}"),
    }
    assert_eq!(context.steps[0].status, StepStatus::WaitingOnInput);
    let retry = context.work_queue.front().expect("retry item queued");
    assert_eq!(retry.step_id(), 0);
    let flags = &context.step_metrics(0).unwrap().red_flags;
    assert_eq!(flags.len(), 1);
    assert_eq!(flags[0].sample_preview, "too long response");
}

#[test]
fn runner_pauses_at_checkpoints_when_step_by_step_enabled() {
    let mut step_check = demo_domain();
    step_check.name = "step_check".to_string();
    step_check.applier = Some("patch_file".to_string());
    let llm = ScriptedLlm::new(vec![vec!["- task"], vec!["1"], vec!["sol"], vec!["1"]]);
    let options = RunnerOptions {
        step_by_step: true,
        default_samples: 1,
        default_k: 1,
        human_low_margin_threshold: 0,
        ..RunnerOptions::default()
    };
    let runner = runner(vec![step_check], Some(llm), options);
    let mut context = WorkflowContext::new("Test Stepping", "step_check");

    let outcome1 = runner.execute(&mut context).unwrap();
    match outcome1 {
        RunnerOutcome::Paused(wait) => {
            assert_eq!(wait.trigger, "step_by_step_checkpoint");
            assert!(wait.details.contains("Decomposition plan ready"));
        }
        _ => panic!("Expected first pause at decomposition checkpoint, got {outcome1:?}"),
    }
    context.clear_wait_state();

    let outcome2 = runner.execute(&mut context).unwrap();
    match outcome2 {
        RunnerOutcome::Paused(wait) => {
            assert_eq!(wait.trigger, "step_by_step_checkpoint");
            assert!(wait.details.contains("Step finished execution"));
        }
        _ => panic!("Expected second pause at step completion checkpoint, got {outcome2:?}"),
    }
    context.clear_wait_state();

    let outcome3 = runner.execute(&mut context).unwrap();
    assert!(matches!(outcome3, RunnerOutcome::Completed));
}

fn mini_domain() -> DomainRuntimeConfig {
    domain(
        "mini",
        [
            agent("Decompose: {{task}}", Some(1), None),
            agent("Vote: {{task}}", Some(2), Some(1)),
            agent("Solve: {{task}}", Some(2), None),
            agent("Decide: {{task}}", Some(2), Some(2)),
        ],
    )
}

fn mini_options() -> RunnerOptions {
    RunnerOptions {
        default_samples: 2,
        default_k: 2,
        adaptive_k: false,
        max_decomposition_depth: 1,
        min_words_for_decomposition: usize::MAX,
        human_red_flag_threshold: usize::MAX,
        human_resample_threshold: usize::MAX,
        human_low_margin_threshold: 1,
        step_by_step: false,
    }
}

fn mini_script() -> Vec<Vec<&'static str>> {
    vec![
        vec!["- Draft patch"],
        vec!["1", "1"],
        vec!["Solution A", "Solution B"],
        vec!["1", "2"],
        vec!["Solution A refined", "Solution A++"],
        vec!["1", "1"],
    ]
}

#[test]
fn runner_pauses_and_resumes_after_low_margin_vote() {
    let runner = runner(vec![mini_domain()], Some(ScriptedLlm::new(mini_script())), mini_options());
    let mut ctx = WorkflowContext::new("Patch flaky test", "mini");

    let outcome = runner.execute(&mut ctx).unwrap();
    match outcome {
        RunnerOutcome::Paused(wait) => {
            assert!(wait.trigger.contains("low_margin"));
        }
        other => panic!("expected pause, got {other:?}"),
    }
    assert!(ctx.wait_state.is_some(), "wait state stored for resume");

    ctx.clear_wait_state();
    let resumed = runner.execute(&mut ctx).unwrap();
    assert!(matches!(resumed, RunnerOutcome::Completed));

    let root = ctx.root_step_id().expect("root step exists");
    let children = ctx.step(root).unwrap().children.clone();
    assert_eq!(children.len(), 1, "one child step tracked");
    let child = ctx.step(children[0]).unwrap();
    assert_eq!(child.winning_solution.as_deref(), Some("Solution A refined"));
}

#[test]
fn low_margin_pause_puts_the_solve_retry_first() {
    let runner = runner(vec![mini_domain()], Some(ScriptedLlm::new(mini_script())), mini_options());
    let mut ctx = WorkflowContext::new("Patch flaky test", "mini");
    let outcome = runner.execute(&mut ctx).unwrap();
    let wait = match outcome {
        RunnerOutcome::Paused(w) => w,
        other => panic!("expected pause, got {other:?}"),
    };
    assert_eq!(wait.trigger, "solution vote_low_margin");
    let front = *ctx.work_queue.front().unwrap();
    assert_eq!(front, microfactory::domain::WorkItem::Solve { step_id: wait.step_id });
    assert_eq!(ctx.steps[wait.step_id].status, StepStatus::WaitingOnInput);
    let waiting = ctx.steps.iter().filter(|s| s.status == StepStatus::WaitingOnInput).count();
    assert_eq!(waiting, 1);
    ctx.clear_wait_state();
    assert_eq!(ctx.steps[wait.step_id].status, StepStatus::Pending);
}

#[test]
fn resuming_equal_clones_reaches_the_same_outcome() {
    let runner_a = runner(vec![mini_domain()], Some(ScriptedLlm::new(mini_script())), mini_options());
    let mut ctx = WorkflowContext::new("Patch flaky test", "mini");
    assert!(matches!(runner_a.execute(&mut ctx).unwrap(), RunnerOutcome::Paused(_)));
    ctx.clear_wait_state();
    let rest = mini_script()[4..].to_vec();
    let runner_b = runner(vec![mini_domain()], Some(ScriptedLlm::new(rest.clone())), mini_options());
    let runner_c = runner(vec![mini_domain()], Some(ScriptedLlm::new(rest)), mini_options());
    let mut first = ctx.clone();
    let mut second = ctx.clone();
    let a = runner_b.execute(&mut first).unwrap();
    let b = runner_c.execute(&mut second).unwrap();
    assert!(matches!(a, RunnerOutcome::Completed));
    assert!(matches!(b, RunnerOutcome::Completed));
    assert_eq!(format!("{:?}", first.steps), format!("{:?}", second.steps));
}

#[test]
fn overwrite_file_refuses_parent_traversal() {
    let mut d = domain(
        "code",
        [agent("d", Some(1), None), agent("dv", Some(1), Some(1)), agent("s", Some(1), None), agent("sv", Some(1), Some(1))],
    );
    d.applier = Some("overwrite_file".to_string());
    let llm = ScriptedLlm::new(vec![
        vec!["- write the file"],
        vec!["1"],
        vec!["<file path=\"../etc/passwd\">root::0:0</file>"],
        vec!["1"],
    ]);
    let options = RunnerOptions { human_low_margin_threshold: 0, ..RunnerOptions::default() };
    let runner = runner(vec![d], Some(llm), options);
    let mut ctx = WorkflowContext::new("Patch", "code");
    let outcome = runner.execute(&mut ctx).unwrap();
    assert!(matches!(outcome, RunnerOutcome::Completed));
    assert_eq!(ctx.steps[1].status, StepStatus::Failed);
    assert!(runner.file_system.writes.borrow().is_empty());
}

#[test]
fn overwrite_file_writes_safe_blocks() {
    let mut d = domain(
        "code",
        [agent("d", Some(1), None), agent("dv", Some(1), Some(1)), agent("s", Some(1), None), agent("sv", Some(1), Some(1))],
    );
    d.applier = Some("overwrite_file".to_string());
    let llm = ScriptedLlm::new(vec![
        vec!["- write the file"],
        vec!["1"],
        vec!["<file path=\"src/a.rs\"> fn a() {} </file>"],
        vec!["1"],
    ]);
    let options = RunnerOptions { human_low_margin_threshold: 0, ..RunnerOptions::default() };
    let runner = runner(vec![d], Some(llm), options);
    let mut ctx = WorkflowContext::new("Patch", "code");
    assert!(matches!(runner.execute(&mut ctx).unwrap(), RunnerOutcome::Completed));
    assert_eq!(ctx.steps[1].status, StepStatus::Completed);
    assert_eq!(
        *runner.file_system.writes.borrow(),
        vec![("src/a.rs".to_string(), "fn a() {}".to_string())]
    );
}

#[test]
fn execute_needs_a_client_and_a_known_domain() {
    let no_llm = runner(vec![demo_domain()], None, RunnerOptions::default());
    let mut ctx = WorkflowContext::new("demo", "demo");
    assert!(no_llm.execute(&mut ctx).is_err());
    let unknown = runner(vec![demo_domain()], Some(ScriptedLlm::new(vec![])), RunnerOptions::default());
    let mut other = WorkflowContext::new("demo", "elsewhere");
    assert!(matches!(unknown.execute(&mut other), Err(Error::Config(_))));
}

#[test]
fn exhausted_script_fails_the_step() {
    let runner = runner(vec![demo_domain()], Some(ScriptedLlm::new(vec![])), RunnerOptions::default());
    let mut ctx = WorkflowContext::new("demo", "demo");
    assert!(runner.execute(&mut ctx).is_err());
    assert_eq!(ctx.steps[0].status, StepStatus::Failed);
}

#[test]
fn low_margin_threshold_zero_disables_pause() {
    let options = RunnerOptions { human_low_margin_threshold: 0, ..RunnerOptions::default() };
    let runner = runner(vec![demo_domain()], None, options);
    let mut ctx = WorkflowContext::new("demo", "demo");
    let step_id = ctx.ensure_root();
    ctx.metrics.record_vote(step_id, AgentKind::DecompositionDiscriminator, 1, 0);

    let wait = runner.check_vote_triggers(&ctx, step_id, "decomposition vote");
    assert!(wait.is_none(), "threshold=0 should skip low-margin pauses");
}

#[test]
fn positive_threshold_pauses_when_margin_is_low() {
    let options = RunnerOptions { human_low_margin_threshold: 2, ..RunnerOptions::default() };
    let runner = runner(vec![demo_domain()], None, options);
    let mut ctx = WorkflowContext::new("demo", "demo");
    let step_id = ctx.ensure_root();
    ctx.metrics.record_vote(step_id, AgentKind::DecompositionDiscriminator, 1, 0);

    let wait = runner.check_vote_triggers(&ctx, step_id, "decomposition vote");
    assert!(wait.is_some(), "margin 1 <= threshold 2 should pause");
    assert_eq!(wait.unwrap().trigger, "decomposition vote_low_margin");
}

#[test]
fn positive_threshold_allows_decisive_votes() {
    let options = RunnerOptions { human_low_margin_threshold: 1, ..RunnerOptions::default() };
    let runner = runner(vec![demo_domain()], None, options);
    let mut ctx = WorkflowContext::new("demo", "demo");
    let step_id = ctx.ensure_root();
    ctx.metrics.record_vote(step_id, AgentKind::DecompositionDiscriminator, 3, 1);

    let wait = runner.check_vote_triggers(&ctx, step_id, "decomposition vote");
    assert!(wait.is_none(), "margin 2 > threshold 1 should continue");
}

#[test]
fn vote_history_keeps_the_last_eight_margins() {
    let mut ctx = WorkflowContext::new("demo", "demo");
    let step_id = ctx.ensure_root();
    for i in 0..12 {
        ctx.metrics.record_vote(step_id, AgentKind::SolutionDiscriminator, i + 2, 0);
    }
    let ring = &ctx.metrics.solution_votes.recent_margins;
    assert_eq!(ring.len(), 8);
    assert_eq!(ring[0], 6);
    assert_eq!(ring[7], 13);
    assert!(ctx.metrics.decomposition_votes.recent_margins.is_empty());
}

#[test]
fn ensure_root_is_idempotent() {
    let mut ctx = WorkflowContext::new("the prompt", "demo");
    let first = ctx.ensure_root();
    let second = ctx.ensure_root();
    assert_eq!(first, second);
    assert_eq!(ctx.steps.len(), 1);
    assert_eq!(ctx.steps[0].description, "the prompt");
}

#[test]
fn children_are_deeper_and_later() {
    let mut ctx = WorkflowContext::new("p", "demo");
    let root = ctx.ensure_root();
    let a = ctx.add_child_step(root, "a".to_string()).unwrap();
    let b = ctx.add_child_step(a, "b".to_string()).unwrap();
    assert!(a > root && b > a);
    assert_eq!(ctx.steps[b].depth, 2);
    assert_eq!(ctx.steps[root].children, vec![a]);
    assert!(matches!(ctx.add_child_step(9, "x".to_string()), Err(Error::InvalidState(_))));
}

#[test]
fn red_flags_trigger_resample() {
    let pipeline = RedFlagPipeline::from_configs(&vec![RedFlaggerConfig::Length { max_tokens: 2 }]);
    let llm = ScriptedLlm::new(vec![vec!["one two three"], vec!["one two"]]);
    let mut ctx = WorkflowContext::new("demo", "code");
    let root_id = ctx.ensure_root();
    let responses = collect_samples(&mut ctx, root_id, &llm, &pipeline, &"prompt".to_string(), 1, &"model".to_string())
        .expect("collected sample");

    assert_eq!(responses.len(), 1);
    assert_eq!(ctx.metrics.red_flag_hits, 1);
    assert!(ctx.metrics.resample_count >= 1);
    let m = ctx.step_metrics(root_id).unwrap();
    assert_eq!((m.samples_requested, m.samples_retained, m.resamples), (2, 1, 1));
}

#[test]
fn resample_budget_runs_out() {
    let pipeline = RedFlagPipeline::from_configs(&vec![RedFlaggerConfig::Length { max_tokens: 0 }]);
    let llm = ScriptedLlm::new(vec![vec!["x"; 10]]);
    let mut ctx = WorkflowContext::new("demo", "code");
    let root_id = ctx.ensure_root();
    let result = collect_samples(&mut ctx, root_id, &llm, &pipeline, &"p".to_string(), 1, &"m".to_string());
    assert!(matches!(result, Err(Error::System(_))));
    assert_eq!(ctx.step_metrics(root_id).unwrap().resamples, 4);
}
