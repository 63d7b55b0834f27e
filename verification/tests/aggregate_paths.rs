//! Tests for the multi-file aggregator's newest-first ordering, the line
//! splitter, the path encoding of the directory locator, and the string
//! utilities.

use codelens::aggregate::{parse_session_logs, sort_sessions_desc, split_lines, SessionLog};
use codelens::path_encode::{encode_repo_path, trim_trailing_slashes};
use codelens::strings::{is_blank, str_eq, str_le};

fn log(session_id: &str, lines: &[&str]) -> SessionLog {
    SessionLog { session_id: session_id.to_string(), content: lines.join("\n") }
}

#[test]
fn newer_file_comes_first_in_merged_output() {
    let files = vec![
        log("jan", &[
            r#"{"type":"user","timestamp":"2024-01-01T00:00:00Z","message":{"content":"january work"}}"#,
        ]),
        log("feb", &[
            r#"{"type":"user","timestamp":"2024-02-01T00:00:00Z","message":{"content":"february work"}}"#,
        ]),
    ];
    let r = parse_session_logs(&files);
    assert_eq!(r.len(), 2);
    assert_eq!(r[0].timestamp, "2024-02-01T00:00:00Z");
    assert_eq!(r[0].session_id, "feb");
    assert_eq!(r[1].timestamp, "2024-01-01T00:00:00Z");
    assert_eq!(r[1].session_id, "jan");
}

#[test]
fn merged_output_is_sorted_descending_across_many_sessions() {
    let files = vec![
        log("a", &[
            r#"{"type":"user","timestamp":"2024-03-05T10:00:00Z","message":{"content":"a one"}}"#,
            r#"{"type":"user","timestamp":"2024-03-07T10:00:00Z","message":{"content":"a two"}}"#,
        ]),
        log("b", &[
            r#"{"type":"user","timestamp":"2024-03-06T10:00:00Z","message":{"content":"b one"}}"#,
        ]),
    ];
    let r = parse_session_logs(&files);
    assert_eq!(r.len(), 3);
    for w in r.windows(2) {
        assert!(w[0].timestamp >= w[1].timestamp);
    }
    assert_eq!(r[0].prompt_text, "a two");
    assert_eq!(r[1].prompt_text, "b one");
    assert_eq!(r[2].prompt_text, "a one");
}

#[test]
fn no_files_yield_no_sessions() {
    let r = parse_session_logs(&Vec::new());
    assert_eq!(r.len(), 0);
}

#[test]
fn unparseable_file_contributes_nothing() {
    let files = vec![
        log("bad", &["not json at all"]),
        log("good", &[
            r#"{"type":"user","timestamp":"T1","message":{"content":"works"}}"#,
        ]),
    ];
    let r = parse_session_logs(&files);
    assert_eq!(r.len(), 1);
    assert_eq!(r[0].session_id, "good");
}

#[test]
fn sort_keeps_equal_timestamps_in_order() {
    let files = vec![log("one", &[
        r#"{"type":"user","timestamp":"T1","message":{"content":"first"}}"#,
        r#"{"type":"user","timestamp":"T1","message":{"content":"second"}}"#,
    ])];
    let r = parse_session_logs(&files);
    assert_eq!(r.len(), 2);
    assert_eq!(r[0].prompt_text, "first");
    assert_eq!(r[1].prompt_text, "second");
}

#[test]
fn sort_sessions_desc_reorders_a_prepared_list() {
    let mut v = codelens::aggregate::parse_session_log(
        &[
            r#"{"type":"user","timestamp":"T1","message":{"content":"older"}}"#,
            r#"{"type":"user","timestamp":"T3","message":{"content":"newest"}}"#,
        ]
        .join("\n"),
        "s",
    );
    v.append(&mut codelens::aggregate::parse_session_log(
        r#"{"type":"user","timestamp":"T2","message":{"content":"middle"}}"#,
        "s",
    ));
    let r = sort_sessions_desc(v);
    assert_eq!(r.len(), 3);
    assert_eq!(r[0].prompt_text, "newest");
    assert_eq!(r[1].prompt_text, "middle");
    assert_eq!(r[2].prompt_text, "older");
}

#[test]
fn split_lines_handles_trailing_newline_and_crlf() {
    let got = split_lines("one\ntwo\r\nthree\n");
    assert_eq!(got, vec!["one".to_string(), "two\r".to_string(), "three".to_string(), "".to_string()]);
    assert_eq!(split_lines(""), vec!["".to_string()]);
}

#[test]
fn encode_repo_path_replaces_slashes() {
    assert_eq!(encode_repo_path("/Users/me/project"), "-Users-me-project");
    assert_eq!(encode_repo_path("relative/path"), "relative-path");
    assert_eq!(encode_repo_path(""), "");
}

#[test]
fn trim_trailing_slashes_strips_only_the_end() {
    assert_eq!(trim_trailing_slashes("/a/b//"), "/a/b");
    assert_eq!(trim_trailing_slashes("/a/b"), "/a/b");
    assert_eq!(trim_trailing_slashes("///"), "");
    assert_eq!(trim_trailing_slashes(""), "");
}

#[test]
fn string_helpers_agree_with_std() {
    assert!(str_eq("abc", "abc"));
    assert!(!str_eq("abc", "abd"));
    assert!(!str_eq("abc", "ab"));
    assert!(str_le("abc", "abd"));
    assert!(str_le("ab", "abc"));
    assert!(!str_le("b", "abc"));
    assert!(str_le("", "a"));
    assert!(is_blank(""));
    assert!(is_blank(" \t\r\n"));
    assert!(!is_blank(" x "));
}
