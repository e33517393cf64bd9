use microfactory::red_flags::{check_syntax, critique_flags, length_check, replace_text, syntax_check};
use microfactory::text::{
    enumerate_options, extract_code_content, extract_target_path, extract_xml_files,
    infer_language, is_unbalanced, parse_subtasks, parse_vote_response, preview_sample,
    validate_target_path,
};
use microfactory::vote::{first_to_ahead_by_k, majority_vote, resolve_k, select_winner, vote_counts, vote_margin};
use microfactory::config::RedFlaggerConfig;
use microfactory::error::Error;
use microfactory::ports::{LlmClient, RedFlagger};
use microfactory::red_flags::{LengthRedFlagger, RedFlagPipeline};

#[test]
fn parses_subtasks_from_bullets() {
    let raw = "- step one\n* step two";
    let subtasks = parse_subtasks(raw);
    assert_eq!(subtasks, vec!["step one", "step two"]);
}

#[test]
fn parses_subtasks_strips_marks_and_blank_lines() {
    let raw = "  • first  \n\n   \n-- second\r\n*third";
    assert_eq!(parse_subtasks(raw), vec!["first", "second", "third"]);
    assert!(parse_subtasks("").is_empty());
    assert!(parse_subtasks(" - \n *").is_empty());
}

#[test]
fn vote_parser_handles_digits() {
    assert_eq!(parse_vote_response("Option 2", 3), Some(1));
    assert_eq!(parse_vote_response("choice #1", 1), Some(0));
    assert_eq!(parse_vote_response("invalid", 2), None);
}

#[test]
fn vote_parser_skips_out_of_range_and_overflow() {
    assert_eq!(parse_vote_response("7 then 2", 3), Some(1));
    assert_eq!(parse_vote_response("0 99999999999999999999999 3", 3), Some(2));
    assert_eq!(parse_vote_response("1", 0), None);
    assert_eq!(parse_vote_response("a1b2", 20), Some(11));
}

#[test]
fn ahead_by_k_requires_margin() {
    let votes = vec![0, 0, 1, 0];
    assert_eq!(first_to_ahead_by_k(&votes, 2), Some(0));
}

#[test]
fn ahead_by_k_three_equal_votes_decide() {
    let votes = vec![4, 4, 4];
    assert_eq!(first_to_ahead_by_k(&votes, 2), Some(4));
    assert_eq!(select_winner(&votes, 2, 5), 4);
}

#[test]
fn ahead_by_k_alternating_votes_fall_back_to_plurality() {
    let votes = vec![0, 1, 0, 1, 0];
    assert_eq!(first_to_ahead_by_k(&votes, 2), None);
    assert_eq!(majority_vote(&votes), Some(0));
    assert_eq!(select_winner(&votes, 2, 2), 0);
}

#[test]
fn majority_vote_falls_back() {
    let votes = vec![1, 2, 2, 1, 2];
    assert_eq!(majority_vote(&votes), Some(2));
}

#[test]
fn majority_vote_ties_go_to_lower_index() {
    assert_eq!(majority_vote(&vec![3, 1, 3, 1]), Some(1));
    assert_eq!(majority_vote(&vec![]), None);
    assert_eq!(select_winner(&vec![], 1, 3), 0);
    assert_eq!(select_winner(&vec![1, 0], 2, 2), 0);
}

#[test]
fn vote_counts_and_margin() {
    assert_eq!(vote_counts(&vec![0, 1, 0, 2], 3, 0), (2, 1));
    assert_eq!(vote_counts(&vec![0, 1], 2, 0), (1, 1));
    assert_eq!(vote_counts(&vec![0, 1], 0, 0), (0, 0));
    assert_eq!(vote_margin(1, 0), 1);
    assert_eq!(vote_margin(3, 1), 2);
    assert_eq!(vote_margin(1, 1), 1);
}

#[test]
fn adaptive_k_moves_with_recent_margins() {
    assert_eq!(resolve_k(2, false, &vec![0, 0]), 2);
    assert_eq!(resolve_k(2, true, &vec![]), 2);
    assert_eq!(resolve_k(2, true, &vec![1, 1]), 3);
    assert_eq!(resolve_k(2, true, &vec![4, 4]), 1);
    assert_eq!(resolve_k(1, true, &vec![9, 9]), 1);
    assert_eq!(resolve_k(4, true, &vec![4, 5]), 4);
}

#[test]
fn extracts_target_path_from_description() {
    assert_eq!(
        extract_target_path("Create file src/main.rs"),
        Some("src/main.rs".to_string())
    );
    assert_eq!(
        extract_target_path("Update config.yaml with..."),
        Some("config.yaml".to_string())
    );
    assert_eq!(extract_target_path("Refactor the login logic"), None);
    assert_eq!(
        extract_target_path("Check (src/lib.rs)"),
        Some("src/lib.rs".to_string())
    );
}

#[test]
fn extracts_code_content_from_markdown() {
    let raw = "Here is the code:\n```rust\nfn main() {}\n```\nEnjoy.";
    assert_eq!(extract_code_content(raw), "fn main() {}\n");

    let raw_no_lang = "```\nplain text\n```";
    assert_eq!(extract_code_content(raw_no_lang), "plain text\n");

    let raw_plain = "Just text";
    assert_eq!(extract_code_content(raw_plain), "Just text");
}

fn xml_sample() -> &'static str {
    r#"
Here is the plan:

<file path="src/main.rs">
fn main() {
    println!("Hello");
}
</file>

And the lib:
<file path="src/lib.rs">pub fn add(a: i32, b: i32) -> i32 { a + b }</file>
        "#
}

#[test]
fn mod_extracts_multiple_xml_files() {
    let files = extract_xml_files(xml_sample());
    assert_eq!(files.len(), 2);
    assert_eq!(files[0].0, "src/main.rs");
    assert!(files[0].1.contains("println!"));
    assert_eq!(files[1].0, "src/lib.rs");
    assert_eq!(files[1].1, "pub fn add(a: i32, b: i32) -> i32 { a + b }");
}

#[test]
fn utils_extracts_multiple_xml_files() {
    let files = extract_xml_files(xml_sample());
    assert_eq!(files.len(), 2);
    assert_eq!(files[0].0, "src/main.rs");
    assert!(files[0].1.contains("println!"));
    assert_eq!(files[1].0, "src/lib.rs");
    assert_eq!(files[1].1, "pub fn add(a: i32, b: i32) -> i32 { a + b }");
}

#[test]
fn xml_blocks_need_a_path_and_a_closing_tag() {
    assert!(extract_xml_files("<file path=\"\">x</file>").is_empty());
    assert!(extract_xml_files("<filepath=\"a\">x</file>").is_empty());
    assert!(extract_xml_files("<file path=\"a\">never closed").is_empty());
    let files = extract_xml_files("<file  path=\"a.txt\">  one  </file><file path=\"b\"></file>");
    assert_eq!(files, vec![("a.txt".to_string(), "one".to_string()), ("b".to_string(), String::new())]);
}

#[test]
fn validation_rejects_unsafe_paths() {
    assert!(validate_target_path("/etc/passwd").is_err());
    assert!(validate_target_path("../outside").is_err());
    assert!(validate_target_path("src/../../oops").is_err());
    assert!(validate_target_path(".git/config").is_err());
    assert!(validate_target_path("src/.git/info").is_err());

    assert!(validate_target_path("src/main.rs").is_ok());
    assert!(validate_target_path("README.md").is_ok());
    assert!(validate_target_path("nested/deep/file.rs").is_ok());
}

#[test]
fn validation_errors_are_file_system_errors() {
    match validate_target_path("../etc/passwd") {
        Err(Error::FileSystem(msg)) => assert!(msg.contains("../etc/passwd")),
        other => panic!("expected a file system error, got {other:?}"),
    }
    assert_eq!(validate_target_path("a/b.txt"), Ok("a/b.txt".to_string()));
}

#[test]
fn preview_is_trimmed_and_bounded() {
    assert_eq!(preview_sample("  short  "), "short");
    let long = "x".repeat(400);
    let preview = preview_sample(&long);
    assert_eq!(preview.chars().count(), 160);
    assert!(preview.ends_with('…'));
    assert_eq!(preview_sample(&"y".repeat(160)).chars().count(), 160);
}

#[test]
fn options_are_listed_one_indexed() {
    let listed = enumerate_options(&vec!["alpha".to_string(), "beta".to_string()]);
    assert_eq!(listed, "Option 1:\nalpha\n\nOption 2:\nbeta\n\n");
    assert_eq!(enumerate_options(&vec![]), "");
}

#[test]
fn brackets_and_languages() {
    assert!(!is_unbalanced("f(a[1]) { }"));
    assert!(is_unbalanced("f(a]"));
    assert!(is_unbalanced("(("));
    assert!(is_unbalanced(")"));
    assert_eq!(infer_language("src/main.rs"), Some("rust".to_string()));
    assert_eq!(infer_language("a.py"), Some("python".to_string()));
    assert_eq!(infer_language("A.java"), Some("java".to_string()));
    assert_eq!(infer_language("x.ts"), Some("javascript".to_string()));
    assert_eq!(infer_language("notes.txt"), None);
}

#[test]
fn length_check_reports_token_counts() {
    assert!(length_check("one two three four", 3).is_some());
    assert!(length_check("one two", 3).is_none());
    assert_eq!(
        length_check("a b c", 2),
        Some("response used 3 tokens exceeding limit 2".to_string())
    );
}

#[test]
fn check_syntax_by_language() {
    assert!(check_syntax("def foo() pass", "python").unwrap().is_some());
    assert!(check_syntax("def foo(): pass", "python").unwrap().is_none());
    assert!(check_syntax("fn main() { let x = 1 }", "rust").unwrap().is_some());
    assert!(check_syntax("fn main() { let x = 1; }", "rust").unwrap().is_none());
    assert!(check_syntax("class Main { void main() { int x = 1 } }", "java").unwrap().is_some());
    assert!(check_syntax("class Main { void main() { int x = 1; } }", "java").unwrap().is_none());
    assert!(check_syntax("f(x", "lisp").unwrap().is_some());
}

#[test]
fn syntax_check_on_file_blocks() {
    let bad = "<file path=\"script.py\">def foo() pass</file>";
    let reason = syntax_check(bad, "rust", true).unwrap().expect("flagged");
    assert!(reason.contains("Syntax error in script.py"));
    let good = "<file path=\"main.rs\">fn main() {}</file>";
    assert!(syntax_check(good, "python", true).unwrap().is_none());
    let bad_rust = "<file path=\"main.rs\">fn main( {}</file>";
    let reason = syntax_check(bad_rust, "python", true).unwrap().expect("flagged");
    assert!(reason.contains("Syntax error in main.rs"));
}

#[test]
fn critique_replacement_and_verdict() {
    assert_eq!(replace_text("Critique: {{candidate}}!", "{{candidate}}", "bad code"), "Critique: bad code!");
    assert!(critique_flags("  YES, this code is bad"));
    assert!(!critique_flags("NO, it looks good"));
}

struct MockLlm {
    response: String,
}

impl LlmClient for MockLlm {
    fn chat_completion(&self, _model: &String, _prompt: &String) -> Result<String, Error> {
        Ok(self.response.clone())
    }
}

fn syntax_pipeline(language: &str, extract_xml: bool) -> RedFlagPipeline {
    RedFlagPipeline::from_configs(&vec![RedFlaggerConfig::Syntax {
        language: language.to_string(),
        extract_xml,
    }])
}

fn no_llm() -> MockLlm {
    MockLlm { response: String::new() }
}

#[test]
fn length_flagger_detects_overflow() {
    let flagger = LengthRedFlagger { max_tokens: 3 };
    assert!(flagger.check(&"one two three four".to_string()).is_err());
    assert!(flagger.check(&"one two".to_string()).is_ok());
    assert_eq!(flagger.name(), "length");
}

#[test]
fn syntax_flagger_detects_errors() {
    let python = syntax_pipeline("python", false);
    assert!(!python.evaluate(&"def foo() pass".to_string(), &no_llm()).is_empty());
    assert!(python.evaluate(&"def foo(): pass".to_string(), &no_llm()).is_empty());

    let rust = syntax_pipeline("rust", false);
    assert!(!rust.evaluate(&"fn main() { let x = 1 }".to_string(), &no_llm()).is_empty());
    assert!(rust.evaluate(&"fn main() { let x = 1; }".to_string(), &no_llm()).is_empty());

    let java = syntax_pipeline("java", false);
    assert!(!java
        .evaluate(&"class Main { void main() { int x = 1 } }".to_string(), &no_llm())
        .is_empty());
    assert!(java
        .evaluate(&"class Main { void main() { int x = 1; } }".to_string(), &no_llm())
        .is_empty());
}

#[test]
fn syntax_flagger_extracts_xml() {
    let flagger = syntax_pipeline("python", true);

    let valid_xml = r#"
            <file path="script.py">
            def foo():
                pass
            </file>
        "#;
    assert!(flagger.evaluate(&valid_xml.to_string(), &no_llm()).is_empty());

    let invalid_xml = r#"
            <file path="script.py">
            def foo() pass
            </file>
        "#;
    let matches = flagger.evaluate(&invalid_xml.to_string(), &no_llm());
    assert!(matches[0].reason.contains("Syntax error in script.py"));

    let mixed_xml = r#"
            <file path="script.py">
            def foo(): pass
            </file>
            <file path="main.rs">
            fn main() { let x = 1; }
            </file>
        "#;
    assert!(flagger.evaluate(&mixed_xml.to_string(), &no_llm()).is_empty());

    let mixed_invalid_xml = r#"
            <file path="script.py">
            def foo(): pass
            </file>
            <file path="main.rs">
            fn main() { let x = 1 }
            </file>
        "#;
    let matches = flagger.evaluate(&mixed_invalid_xml.to_string(), &no_llm());
    assert!(matches[0].reason.contains("Syntax error in main.rs"));
}

#[test]
fn pipeline_builds_from_config() {
    let pipeline = RedFlagPipeline::from_configs(&vec![RedFlaggerConfig::Length { max_tokens: 2 }]);
    let matches = pipeline.evaluate(&"one two three".to_string(), &no_llm());
    assert_eq!(matches.len(), 1);
    assert!(!pipeline.is_empty());
}

fn critique_pipeline() -> RedFlagPipeline {
    RedFlagPipeline::from_configs(&vec![RedFlaggerConfig::LlmCritique {
        model: "test-model".to_string(),
        prompt_template: "Critique: {{candidate}}".to_string(),
    }])
}

#[test]
fn llm_flagger_flags_on_yes() {
    let client = MockLlm { response: "YES, this code is bad".into() };
    let matches = critique_pipeline().evaluate(&"bad code".to_string(), &client);
    assert_eq!(matches.len(), 1);
    assert!(matches[0].reason.contains("LLM critique flagged"));
    assert_eq!(matches[0].flagger, "llm_critique");
}

#[test]
fn llm_flagger_passes_on_no() {
    let client = MockLlm { response: "NO, it looks good".into() };
    let matches = critique_pipeline().evaluate(&"good code".to_string(), &client);
    assert!(matches.is_empty());
}
