use microfactory::tasks::{settle_round, spawn_children, RoundOutcome};
use microfactory::chars::is_space;
use microfactory::red_flags::RedFlagMatch;
use microfactory::session::{subprocess_context, subprocess_outcome, SubprocessRequest};
use microfactory::tasks::{keep_clean, overwrite_plan};
use microfactory::config::{
    looks_like_template_path, red_flagger_from_parts, validate_agent_settings, AgentDefaults,
    AgentSettings, RedFlaggerConfig, StepGranularity,
};
use microfactory::domain::{AgentKind, StepStatus, WorkItem, WorkflowContext};
use microfactory::error::Error;
use microfactory::help::build_help_section;
use microfactory::runner::{RunnerOptions, RunnerOutcome};
use microfactory::session::{
    count_completed_steps, outcome_from_runner_result, resume_metadata, status_after,
    ResumeSessionRequest, SessionEnvelope, SessionListExport, SessionMetadata, SessionRecord,
    SessionStatus, SessionSummary, SessionDetailExport,
};
use microfactory::settings::HelpTopic;
use microfactory::tasks::{
    build_proposals, finish_apply_verify, finish_decomposition, finish_decomposition_vote,
    finish_solution_vote, finish_solve, join_lines, parent_dir, parse_votes, TaskEffect,
    TaskResult,
};

fn strings(v: &[&str]) -> Vec<String> {
    v.iter().map(|s| s.to_string()).collect()
}

#[test]
fn decomposition_outcome_registers_proposals() {
    let mut ctx = WorkflowContext::new("Write docs", "demo");
    let root = ctx.ensure_root();
    let raws = strings(&["- a\n- b", "nothing useful\n", ""]);
    finish_decomposition(&mut ctx, root, &"Write docs".to_string(), raws).unwrap();
    let pending = ctx.pending_decompositions[root].as_ref().unwrap();
    assert_eq!(pending.len(), 3);
    assert_eq!(pending[0].subtasks, strings(&["a", "b"]));
    assert_eq!(pending[1].subtasks, strings(&["nothing useful"]));
    assert_eq!(pending[2].subtasks, strings(&["Write docs"]));
    assert!(matches!(
        finish_decomposition(&mut ctx, root, &"x".to_string(), vec![]),
        Err(Error::System(_))
    ));
}

#[test]
fn decomposition_vote_spawns_the_winners_subtasks() {
    let mut ctx = WorkflowContext::new("Write docs", "demo");
    let root = ctx.ensure_root();
    let proposals = build_proposals(strings(&["- a\n- b", "- c"]), &"Write docs".to_string());
    let (winner, ids) =
        finish_decomposition_vote(&mut ctx, root, &proposals, &strings(&["2", "Option 2", "1"]), 1)
            .unwrap();
    assert_eq!(winner, 1);
    assert_eq!(ids, vec![1]);
    assert_eq!(ctx.steps[1].description, "c");
    assert_eq!(ctx.steps[1].depth, 1);
    assert_eq!(ctx.step_metrics(root).unwrap().vote_margin, Some(1));
    assert_eq!(ctx.metrics.decomposition_votes.recent_margins, vec![1]);
}

#[test]
fn solution_vote_completes_the_step() {
    let mut ctx = WorkflowContext::new("p", "demo");
    let root = ctx.ensure_root();
    finish_solve(&mut ctx, root, strings(&["x", "y", "z"])).unwrap();
    assert_eq!(ctx.steps[root].candidate_solutions, strings(&["x", "y", "z"]));
    let solutions = ctx.take_solutions(root).unwrap();
    let winner = finish_solution_vote(&mut ctx, root, &solutions, &strings(&["3", "junk", "2", "3"]), 2);
    assert_eq!(winner, 2);
    assert_eq!(ctx.steps[root].status, StepStatus::Completed);
    assert_eq!(ctx.steps[root].winning_solution.as_deref(), Some("z"));
    assert_eq!(ctx.step_metrics(root).unwrap().vote_margin, Some(1));
    assert!(matches!(finish_solve(&mut ctx, root, vec![]), Err(Error::System(_))));
}

#[test]
fn apply_outcomes_settle_the_step() {
    let mut ctx = WorkflowContext::new("p", "demo");
    let root = ctx.ensure_root();
    ctx.mark_step_solution(root, "s".to_string());
    assert_eq!(finish_apply_verify(&mut ctx, root, false, true), TaskEffect::Unchanged);
    assert_eq!(ctx.steps[root].status, StepStatus::Failed);
    assert_eq!(ctx.step_metrics(root).unwrap().verification_passed, None);
    assert_eq!(
        finish_apply_verify(&mut ctx, root, true, true),
        TaskEffect::StepCompleted { step_id: root }
    );
    assert_eq!(ctx.steps[root].status, StepStatus::Completed);
    assert_eq!(finish_apply_verify(&mut ctx, root, true, false), TaskEffect::Unchanged);
    assert_eq!(ctx.step_metrics(root).unwrap().verification_passed, Some(false));
}

#[test]
fn votes_lines_and_parents() {
    assert_eq!(parse_votes(&strings(&["1", "x", "3", "2 1"]), 2), vec![0, 1]);
    assert_eq!(join_lines(&strings(&["a", "b", "c"])), "a\nb\nc");
    assert_eq!(join_lines(&vec![]), "");
    assert_eq!(parent_dir(&"a/b/c.rs".to_string()), Some("a/b".to_string()));
    assert_eq!(parent_dir(&"c.rs".to_string()), None);
    assert_eq!(parent_dir(&"/c.rs".to_string()), None);
    assert_eq!(TaskResult::default(), TaskResult::continue_with(TaskEffect::Unchanged));
}

#[test]
fn well_formedness_check_refuses_broken_contexts() {
    let mut ctx = WorkflowContext::new("p", "demo");
    assert!(ctx.is_well_formed());
    let root = ctx.ensure_root();
    ctx.enqueue_work(WorkItem::Decomposition { step_id: root });
    assert!(ctx.is_well_formed());
    let mut broken = ctx.clone();
    broken.work_queue.push_back(WorkItem::Solve { step_id: 7 });
    assert!(!broken.is_well_formed());
    let mut waiting = ctx.clone();
    waiting.steps[0].status = StepStatus::WaitingOnInput;
    assert!(!waiting.is_well_formed());
    let mut completed = ctx.clone();
    completed.steps[0].status = StepStatus::Completed;
    assert!(!completed.is_well_formed());
}

#[test]
fn wait_states_and_checkpoints() {
    let mut ctx = WorkflowContext::new("p", "demo");
    let root = ctx.ensure_root();
    ctx.set_wait_state(root, "t".to_string(), "d".to_string());
    assert_eq!(ctx.steps[root].status, StepStatus::WaitingOnInput);
    ctx.clear_wait_state();
    assert_eq!(ctx.steps[root].status, StepStatus::Pending);
    assert!(ctx.wait_state.is_none());
    ctx.mark_step_status(root, StepStatus::Running);
    ctx.set_checkpoint(root, "step_by_step_checkpoint".to_string(), "d".to_string());
    assert_eq!(ctx.steps[root].status, StepStatus::Running);
    assert!(ctx.wait_state.is_some());
}

#[test]
fn configuration_rules() {
    assert!(matches!(
        red_flagger_from_parts("d", "length", Some(3), None, None, None, None),
        Ok(RedFlaggerConfig::Length { max_tokens: 3 })
    ));
    assert!(red_flagger_from_parts("d", "length", Some(0), None, None, None, None).is_err());
    assert!(red_flagger_from_parts("d", "length", None, None, None, None, None).is_err());
    assert!(matches!(
        red_flagger_from_parts("d", "syntax", None, Some("rust".into()), None, None, None),
        Ok(RedFlaggerConfig::Syntax { extract_xml: false, .. })
    ));
    assert!(red_flagger_from_parts("d", "syntax", None, Some("  ".into()), None, None, None).is_err());
    assert!(red_flagger_from_parts("d", "llm_critique", None, None, None, Some("m".into()), Some("t".into())).is_ok());
    assert!(matches!(
        red_flagger_from_parts("d", "regex", None, None, None, None, None),
        Err(Error::Config(_))
    ));
    let settings = AgentSettings {
        prompt_template: "t".into(),
        model: "m".into(),
        samples: Some(0),
        k: None,
        red_flaggers: None,
    };
    assert!(validate_agent_settings("d", &settings).is_err());
    let ok = AgentSettings { samples: None, ..settings };
    assert!(validate_agent_settings("d", &ok).is_ok());
    let agent = ok.as_agent_config(AgentKind::Solver, &AgentDefaults { samples: 0, k: 3 });
    assert_eq!((agent.samples, agent.k), (1, Some(3)));
    assert!(StepGranularity { max_files: Some(0), max_lines_changed: None }.validate("d").is_err());
    assert!(StepGranularity { max_files: Some(2), max_lines_changed: None }.validate("d").is_ok());
    assert!(looks_like_template_path("templates/demo.hbs"));
    assert!(!looks_like_template_path("Decompose: {{task}}"));
}

#[test]
fn runner_options_from_cli_raise_counts_to_one() {
    let o = RunnerOptions::from_cli(0, 0, true, true, 3);
    assert_eq!((o.default_samples, o.default_k, o.max_decomposition_depth), (1, 1, 2));
    assert_eq!((o.human_red_flag_threshold, o.human_low_margin_threshold), (4, 3));
}

fn metadata() -> SessionMetadata {
    SessionMetadata {
        config_path: "config.yaml".into(),
        llm_provider: "openai".into(),
        llm_model: "gpt".into(),
        max_concurrent_llm: 4,
        samples: 10,
        k: 3,
        adaptive_k: true,
        human_low_margin_threshold: 1,
    }
}

#[test]
fn session_outcomes_and_resumes() {
    let done = outcome_from_runner_result(&"s".to_string(), RunnerOutcome::Completed);
    assert!(done.completed && !done.paused && done.pause_reason.is_none());
    assert_eq!(status_after(&Ok(RunnerOutcome::Completed)), SessionStatus::Completed);
    assert_eq!(status_after(&Err(Error::System("x".into()))), SessionStatus::Failed);
    let request = ResumeSessionRequest {
        session_id: "s".into(),
        config_path: None,
        llm_provider: Some("anthropic".into()),
        llm_model: None,
        api_key: None,
        samples: Some(4),
        k: None,
        max_concurrent_llm: None,
        human_low_margin_threshold: None,
    };
    let merged = resume_metadata(&request, &metadata());
    assert_eq!(merged.llm_provider, "anthropic");
    assert_eq!(merged.llm_model, "gpt");
    assert_eq!((merged.samples, merged.k, merged.adaptive_k), (4, 3, true));
    assert_eq!(metadata().describe_provider(), "openai");
}

#[test]
fn exports_count_completed_steps() {
    let mut ctx = WorkflowContext::new("p", "demo");
    let root = ctx.ensure_root();
    let child = ctx.add_child_step(root, "c".into()).unwrap();
    ctx.mark_step_solution(child, "s".into());
    assert_eq!(count_completed_steps(&ctx), 1);
    let record = SessionRecord {
        envelope: SessionEnvelope { context: ctx, metadata: metadata() },
        status: SessionStatus::Paused,
        updated_at: 42,
    };
    let export = SessionDetailExport::from_record(&record);
    assert_eq!((export.completed_steps, export.total_steps), (1, 2));
    assert_eq!(export.status, "paused");
    let list = SessionListExport::from_summaries(vec![SessionSummary {
        session_id: "a".into(),
        status: SessionStatus::Running,
        prompt: "p".into(),
        domain: "d".into(),
        updated_at: 7,
    }]);
    assert_eq!(list.sessions[0].status, "running");
    assert_eq!(Error::Config("x".into()).message(), "Configuration error: x");
}

#[test]
fn help_sections_name_their_topic() {
    assert_eq!(build_help_section(HelpTopic::Run).topic, "run");
    assert_eq!(build_help_section(HelpTopic::Serve).topic, "serve");
    assert!(!build_help_section(HelpTopic::Overview).key_flags.is_empty());
}

#[test]
fn batch_filter_keeps_clean_samples_in_order() {
    let flag = RedFlagMatch { flagger: "length".into(), reason: "r".into() };
    let kept = keep_clean(&strings(&["a", "b", "c"]), &vec![vec![], vec![flag], vec![]]);
    assert_eq!(kept, strings(&["a", "c"]));
}

#[test]
fn overwrite_plan_checks_every_path_first() {
    let ok = overwrite_plan(&"<file path=\"a.txt\">x</file><file path=\"b/c.rs\"> y </file>".to_string(), &"d".to_string()).unwrap();
    assert_eq!(ok, vec![("a.txt".to_string(), "x".to_string()), ("b/c.rs".to_string(), "y".to_string())]);
    assert!(matches!(
        overwrite_plan(&"<file path=\"a.txt\">x</file><file path=\"../etc/passwd\">y</file>".to_string(), &"d".to_string()),
        Err(Error::FileSystem(_))
    ));
    let fallback = overwrite_plan(&"```rust\nfn a() {}\n```".to_string(), &"Edit src/a.rs now".to_string()).unwrap();
    assert_eq!(fallback, vec![("src/a.rs".to_string(), "fn a() {}\n".to_string())]);
    assert!(overwrite_plan(&"text".to_string(), &"no path here".to_string()).is_err());
}

#[test]
fn subprocess_context_and_outcome() {
    let request = SubprocessRequest {
        domain: "code".into(),
        config_path: "config.yaml".into(),
        step: "Write a test".into(),
        context_json: Some("{}".into()),
        llm_provider: "openai".into(),
        llm_model: "m".into(),
        api_key: None,
        samples: 2,
        k: 2,
        max_concurrent_llm: 1,
    };
    let mut ctx = subprocess_context(&request, "sub-1".into());
    assert_eq!(ctx.work_queue.front().copied(), Some(WorkItem::Solve { step_id: 0 }));
    assert_eq!(ctx.domain_data, vec![("context_json".to_string(), "{}".to_string())]);
    ctx.set_domain_data("context_json".into(), "[]".into());
    assert_eq!(ctx.domain_data.len(), 1);
    assert!(ctx.is_well_formed());
    ctx.register_solutions(0, strings(&["x", "y"]));
    ctx.mark_step_solution(0, "y".into());
    let out = subprocess_outcome(&ctx, "sub-1".into(), Ok(RunnerOutcome::Completed)).unwrap();
    assert_eq!(out.candidate_solutions, strings(&["x", "y"]));
    assert_eq!(out.winning_solution.as_deref(), Some("y"));
    assert!(matches!(
        subprocess_outcome(&ctx, "sub-1".into(), Err(Error::Config("c".into()))),
        Err(Error::System(_))
    ));
}

#[test]
fn white_space_is_the_unicode_list() {
    for c in [' ', '\t', '\n', '\r', '\u{0b}', '\u{0c}', '\u{85}', '\u{a0}', '\u{2003}', '\u{3000}'] {
        assert!(is_space(c));
        assert_eq!(is_space(c), c.is_whitespace());
    }
    for c in ['a', 'Z', '0', '_', '\u{200b}', 'é'] {
        assert!(!is_space(c));
        assert_eq!(is_space(c), c.is_whitespace());
    }
}

#[test]
fn sampling_round_counts_and_budget() {
    let mut ctx = WorkflowContext::new("p", "demo");
    let root = ctx.ensure_root();
    let flag = RedFlagMatch { flagger: "length".into(), reason: "too long".into() };
    let mut accepted = strings(&["old"]);
    let out = settle_round(
        &mut ctx,
        root,
        &mut accepted,
        &strings(&["a", "b b b", "c"]),
        &vec![vec![], vec![flag], vec![]],
        5,
        1,
    );
    assert_eq!(out, RoundOutcome::Short);
    assert_eq!(accepted, strings(&["old", "a", "c"]));
    let m = ctx.step_metrics(root).unwrap();
    assert_eq!((m.samples_requested, m.samples_retained, m.resamples), (3, 2, 1));
    assert_eq!(m.red_flags.len(), 1);
    assert_eq!(m.red_flags[0].sample_preview, "b b b");
    let spent = settle_round(&mut ctx, root, &mut accepted, &strings(&["d"]), &vec![vec![]], 4, 20);
    assert_eq!(spent, RoundOutcome::Filled);
    let mut short = Vec::new();
    let exhausted = settle_round(&mut ctx, root, &mut short, &strings(&["e"]), &vec![vec![RedFlagMatch { flagger: "x".into(), reason: "y".into() }]], 1, 4);
    assert_eq!(exhausted, RoundOutcome::Exhausted);
}

#[test]
fn spawned_children_join_the_parent() {
    let mut ctx = WorkflowContext::new("p", "demo");
    let root = ctx.ensure_root();
    let ids = spawn_children(&mut ctx, root, &strings(&["x", "y"])).unwrap();
    assert_eq!(ids, vec![1, 2]);
    assert_eq!(ctx.steps[root].children, vec![1, 2]);
    assert_eq!(ctx.steps[2].depth, 1);
}
