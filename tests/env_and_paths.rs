use microfactory::settings::{
    data_dir, env_file_candidates_from, home_env_path, parse_env_assignment, pick_api_key,
    LlmProvider,
};
use microfactory::session::{check_resumable, SessionStatus};

#[test]
fn pick_api_key_prefers_cli_value() {
    let key = pick_api_key(Some(" cli ".into()), Some("env".into())).expect("CLI key used");
    assert_eq!(key, "cli");
}

#[test]
fn pick_api_key_falls_back_to_env() {
    let key = pick_api_key(None, Some("env-key".into())).expect("env key used");
    assert_eq!(key, "env-key");
}

#[test]
fn pick_api_key_errors_when_missing() {
    let err = pick_api_key(None, None).unwrap_err();
    assert!(err.message().contains("Missing API key"));
}

#[test]
fn parse_env_assignment_handles_export_and_quotes() {
    let parsed =
        parse_env_assignment(" export OPENAI_API_KEY=\"abc123\" ").expect("assignment parsed");
    assert_eq!(parsed.0, "OPENAI_API_KEY");
    assert_eq!(parsed.1, "abc123");
}

#[test]
fn parse_env_assignment_skips_comments() {
    assert!(parse_env_assignment(" # comment").is_none());
    assert!(parse_env_assignment("   ").is_none());
    assert!(parse_env_assignment("invalidline").is_none());
}

#[test]
fn parse_env_assignment_keeps_later_equals_and_single_quotes() {
    assert_eq!(
        parse_env_assignment("A = 'x=y' "),
        Some(("A".to_string(), "x=y".to_string()))
    );
    assert!(parse_env_assignment(" = value").is_none());
}

#[test]
fn env_candidates_prioritize_microfactory_home() {
    let candidates = env_file_candidates_from(Some("micro-home".into()), Some("real-home".into()));
    assert_eq!(candidates[0], "micro-home/.env");
    assert_eq!(candidates[1], "real-home/.env");
}

#[test]
fn env_candidates_deduplicate_when_paths_match() {
    let candidates = env_file_candidates_from(Some("real-home".into()), Some("real-home".into()));
    assert_eq!(candidates.len(), 1);
    assert_eq!(candidates[0], "real-home/.env");
}

#[test]
fn env_candidates_handle_missing_primary() {
    let candidates = env_file_candidates_from(None, Some("real-home".into()));
    assert_eq!(candidates.len(), 1);
    assert_eq!(candidates[0], "real-home/.env");
}

#[test]
fn home_paths_join_with_one_separator() {
    assert_eq!(home_env_path(Some("/home/u/".into())), Some("/home/u/.env".to_string()));
    assert_eq!(home_env_path(None), None);
    assert_eq!(data_dir(Some("/home/u".into())), "/home/u/.microfactory");
    assert_eq!(data_dir(None), ".microfactory");
}

#[test]
fn providers_and_statuses_round_trip_their_names() {
    for p in [LlmProvider::Openai, LlmProvider::Anthropic, LlmProvider::Gemini, LlmProvider::Grok] {
        assert_eq!(LlmProvider::from_name(p.as_str()), Some(p));
    }
    assert_eq!(LlmProvider::Grok.env_var(), "XAI_API_KEY");
    assert_eq!(LlmProvider::from_name("mistral"), None);
    for s in [SessionStatus::Running, SessionStatus::Paused, SessionStatus::Completed, SessionStatus::Failed] {
        assert_eq!(SessionStatus::from_str(s.as_str()), Some(s));
    }
    assert!(check_resumable(SessionStatus::Paused).is_ok());
    assert!(check_resumable(SessionStatus::Failed).is_ok());
    assert!(check_resumable(SessionStatus::Running).is_err());
    assert!(check_resumable(SessionStatus::Completed).is_err());
}
