//! Scenario tests for the single-file reconstruction: genuine prompts,
//! tool-result echoes, assistant activity, and degraded inputs.

use codelens::aggregate::parse_session_log;
use codelens::session::PromptSession;

fn parse(lines: &[&str]) -> Vec<PromptSession> {
    let content = lines.join("\n");
    parse_session_log(&content, "s1")
}

#[test]
fn prompt_then_edit_accumulates_everything() {
    let r = parse(&[
        r#"{"type":"user","timestamp":"T1","message":{"content":"fix bug"}}"#,
        r#"{"type":"assistant","timestamp":"T2","message":{"model":"m1","usage":{"input_tokens":10,"output_tokens":5},"content":[{"type":"tool_use","name":"Edit","input":{"file_path":"a.go"}}]}}"#,
    ]);
    assert_eq!(r.len(), 1);
    let s = &r[0];
    assert_eq!(s.session_id, "s1");
    assert_eq!(s.prompt_text, "fix bug");
    assert_eq!(s.timestamp, "T1");
    assert_eq!(s.model.as_deref(), Some("m1"));
    assert_eq!(s.token_usage.input_tokens, 10);
    assert_eq!(s.token_usage.output_tokens, 5);
    assert_eq!(s.token_usage.cache_read_tokens, 0);
    assert_eq!(s.files_touched, vec!["a.go".to_string()]);
    assert_eq!(s.files_written, vec!["a.go".to_string()]);
    assert_eq!(s.tool_call_count, 1);
    assert_eq!(s.time_end.as_deref(), Some("T2"));
}

#[test]
fn tool_result_echo_only_moves_time_end() {
    let r = parse(&[
        r#"{"type":"user","timestamp":"T1","message":{"content":"fix bug"}}"#,
        r#"{"type":"user","timestamp":"T2","message":{"content":[{"type":"tool_result","content":"ok"}]}}"#,
    ]);
    assert_eq!(r.len(), 1);
    let s = &r[0];
    assert_eq!(s.prompt_text, "fix bug");
    assert_eq!(s.tool_call_count, 0);
    assert_eq!(s.time_end.as_deref(), Some("T2"));
    assert!(s.files_touched.is_empty());
    assert!(s.files_written.is_empty());
}

#[test]
fn echo_without_open_session_emits_nothing() {
    let r = parse(&[
        r#"{"type":"user","timestamp":"T1","message":{"content":[{"type":"tool_result","content":"ok"}]}}"#,
    ]);
    assert_eq!(r.len(), 0);
}

#[test]
fn one_prompt_with_three_tool_calls_counts_three() {
    let assistant = r#"{"type":"assistant","timestamp":"T2","message":{"content":[{"type":"tool_use","name":"Bash","input":{"command":"ls"}}]}}"#;
    let r = parse(&[
        r#"{"type":"user","timestamp":"T1","message":{"content":"run things"}}"#,
        assistant,
        assistant,
        assistant,
    ]);
    assert_eq!(r.len(), 1);
    assert_eq!(r[0].tool_call_count, 3);
    assert!(r[0].files_touched.is_empty());
}

#[test]
fn two_consecutive_prompts_yield_two_empty_sessions() {
    let r = parse(&[
        r#"{"type":"user","timestamp":"T1","message":{"content":"first"}}"#,
        r#"{"type":"user","timestamp":"T2","message":{"content":"second"}}"#,
    ]);
    assert_eq!(r.len(), 2);
    for s in &r {
        assert!(s.files_touched.is_empty());
        assert!(s.files_written.is_empty());
        assert_eq!(s.tool_call_count, 0);
    }
    assert_eq!(r[0].prompt_text, "first");
    assert_eq!(r[1].prompt_text, "second");
}

#[test]
fn blank_prompt_closes_previous_but_opens_nothing() {
    let r = parse(&[
        r#"{"type":"user","timestamp":"T1","message":{"content":"real work"}}"#,
        r#"{"type":"user","timestamp":"T2","message":{"content":"   \t "}}"#,
        r#"{"type":"assistant","timestamp":"T3","message":{"usage":{"input_tokens":7}}}"#,
    ]);
    assert_eq!(r.len(), 1);
    assert_eq!(r[0].prompt_text, "real work");
    // The assistant event arrived with no session open: nothing attributed.
    assert_eq!(r[0].token_usage.input_tokens, 0);
}

#[test]
fn usage_sums_over_assistant_events() {
    let r = parse(&[
        r#"{"type":"user","timestamp":"T1","message":{"content":"sum tokens"}}"#,
        r#"{"type":"assistant","timestamp":"T2","message":{"usage":{"input_tokens":10,"output_tokens":5,"cache_read_input_tokens":2}}}"#,
        r#"{"type":"assistant","timestamp":"T3","message":{"usage":{"input_tokens":1,"output_tokens":4}}}"#,
        r#"{"type":"assistant","timestamp":"T4","message":{}}"#,
    ]);
    assert_eq!(r.len(), 1);
    assert_eq!(r[0].token_usage.input_tokens, 11);
    assert_eq!(r[0].token_usage.output_tokens, 9);
    assert_eq!(r[0].token_usage.cache_read_tokens, 2);
    assert_eq!(r[0].time_end.as_deref(), Some("T4"));
}

#[test]
fn cache_read_tokens_key_is_read_and_preferred() {
    let r = parse(&[
        r#"{"type":"user","timestamp":"T1","message":{"content":"cache keys"}}"#,
        r#"{"type":"assistant","timestamp":"T2","message":{"usage":{"cache_read_tokens":4}}}"#,
        r#"{"type":"assistant","timestamp":"T3","message":{"usage":{"cache_read_tokens":6,"cache_read_input_tokens":99}}}"#,
    ]);
    assert_eq!(r.len(), 1);
    assert_eq!(r[0].token_usage.cache_read_tokens, 10);
}

#[test]
fn model_is_first_observed_and_never_overwritten() {
    let r = parse(&[
        r#"{"type":"user","timestamp":"T1","message":{"content":"which model"}}"#,
        r#"{"type":"assistant","timestamp":"T2","message":{}}"#,
        r#"{"type":"assistant","timestamp":"T3","message":{"model":"m1"}}"#,
        r#"{"type":"assistant","timestamp":"T4","message":{"model":"m2"}}"#,
    ]);
    assert_eq!(r.len(), 1);
    assert_eq!(r[0].model.as_deref(), Some("m1"));
}

#[test]
fn files_written_subset_of_touched_and_sorted() {
    let r = parse(&[
        r#"{"type":"user","timestamp":"T1","message":{"content":"touch files"}}"#,
        r#"{"type":"assistant","timestamp":"T2","message":{"content":[{"type":"tool_use","name":"Write","input":{"file_path":"b.rs"}},{"type":"tool_use","name":"Read","input":{"file_path":"a.rs"}},{"type":"tool_use","name":"Edit","input":{"file_path":"b.rs"}},{"type":"tool_use","name":"NotebookEdit","input":{"notebook_path":"n.ipynb"}},{"type":"tool_use","name":"Grep","input":{"pattern":"x"}}]}}"#,
    ]);
    assert_eq!(r.len(), 1);
    let s = &r[0];
    assert_eq!(s.tool_call_count, 5);
    assert_eq!(
        s.files_touched,
        vec!["a.rs".to_string(), "b.rs".to_string(), "n.ipynb".to_string()]
    );
    assert_eq!(s.files_written, vec!["b.rs".to_string(), "n.ipynb".to_string()]);
    for p in &s.files_written {
        assert!(s.files_touched.contains(p));
    }
}

#[test]
fn path_bearing_tool_without_path_still_counts() {
    let r = parse(&[
        r#"{"type":"user","timestamp":"T1","message":{"content":"odd input"}}"#,
        r#"{"type":"assistant","timestamp":"T2","message":{"content":[{"type":"tool_use","name":"Write","input":{}},{"type":"tool_use","name":"Read","input":{"file_path":7}}]}}"#,
    ]);
    assert_eq!(r.len(), 1);
    assert_eq!(r[0].tool_call_count, 2);
    assert!(r[0].files_touched.is_empty());
}

#[test]
fn array_prompt_joins_text_blocks_with_newlines() {
    let r = parse(&[
        r#"{"type":"user","timestamp":"T1","message":{"content":[{"type":"text","text":"look at this"},{"type":"image","source":"..."},{"type":"text","text":"and that"}]}}"#,
    ]);
    assert_eq!(r.len(), 1);
    assert_eq!(r[0].prompt_text, "look at this\nand that");
    assert_eq!(r[0].timestamp, "T1");
}

#[test]
fn array_prompt_with_only_blank_text_is_ignored_entirely() {
    let r = parse(&[
        r#"{"type":"user","timestamp":"T1","message":{"content":"before"}}"#,
        r#"{"type":"user","timestamp":"T2","message":{"content":[{"type":"text","text":"  "}]}}"#,
        r#"{"type":"assistant","timestamp":"T3","message":{"usage":{"input_tokens":3}}}"#,
    ]);
    // The blank array prompt neither closed nor opened: the first session is
    // still open and takes the assistant event.
    assert_eq!(r.len(), 1);
    assert_eq!(r[0].prompt_text, "before");
    assert_eq!(r[0].token_usage.input_tokens, 3);
    assert_eq!(r[0].time_end.as_deref(), Some("T3"));
}

#[test]
fn malformed_lines_and_unknown_types_are_skipped() {
    let r = parse(&[
        r#"{"type":"file-history-snapshot","timestamp":"T0"}"#,
        "this is not json",
        "",
        "   ",
        r#"{"type":"user","timestamp":"T1","message":{"content":"still works"}}"#,
        r#"{"broken"#,
        r#"{"type":"assistant","timestamp":"T2","message":{"usage":{"output_tokens":1}}}"#,
    ]);
    assert_eq!(r.len(), 1);
    assert_eq!(r[0].prompt_text, "still works");
    assert_eq!(r[0].token_usage.output_tokens, 1);
}

#[test]
fn assistant_before_any_prompt_is_dropped() {
    let r = parse(&[
        r#"{"type":"assistant","timestamp":"T0","message":{"model":"m0","usage":{"input_tokens":9},"content":[{"type":"tool_use","name":"Edit","input":{"file_path":"x.rs"}}]}}"#,
        r#"{"type":"user","timestamp":"T1","message":{"content":"now start"}}"#,
    ]);
    assert_eq!(r.len(), 1);
    assert_eq!(r[0].model, None);
    assert_eq!(r[0].token_usage.input_tokens, 0);
    assert_eq!(r[0].tool_call_count, 0);
    assert!(r[0].files_touched.is_empty());
}

#[test]
fn user_event_without_message_or_content_is_ignored() {
    let r = parse(&[
        r#"{"type":"user","timestamp":"T1"}"#,
        r#"{"type":"user","timestamp":"T2","message":{}}"#,
        r#"{"type":"user","timestamp":"T3","message":{"content":42}}"#,
    ]);
    assert_eq!(r.len(), 0);
}

#[test]
fn missing_timestamp_stays_empty_and_time_end_absent() {
    let r = parse(&[r#"{"type":"user","message":{"content":"no clock"}}"#]);
    assert_eq!(r.len(), 1);
    assert_eq!(r[0].timestamp, "");
    assert_eq!(r[0].time_end, None);
}

#[test]
fn correlation_fields_left_at_defaults() {
    let r = parse(&[r#"{"type":"user","timestamp":"T1","message":{"content":"defaults"}}"#]);
    assert_eq!(r.len(), 1);
    assert!(r[0].associated_commit_hashes.is_empty());
    assert!(r[0].associated_feature_ids.is_empty());
    assert_eq!(r[0].intent, None);
}

#[test]
fn empty_log_yields_no_sessions() {
    assert_eq!(parse_session_log("", "s1").len(), 0);
}
