use codewarp::bytes::fmt_bytes;
use codewarp::file_tree::is_text_file;
use codewarp::mention::{build_file_context, extract_mention_query, fuzzy_match_paths};
use codewarp::summary::summarize_tool_result;

#[test]
fn util_fmt_bytes_units() {
    assert_eq!(fmt_bytes(0), "0 B");
    assert_eq!(fmt_bytes(512), "512 B");
    assert_eq!(fmt_bytes(1024), "1 KB");
    assert_eq!(fmt_bytes(1024 * 1024), "1.0 MB");
    assert_eq!(fmt_bytes(1024 * 1024 * 1024), "1.00 GB");
}

#[test]
fn util_fmt_bytes_large_gb() {
    let n = 5_500_000_000u64;
    let s = fmt_bytes(n);
    assert!(s.ends_with(" GB"), "got: {}", s);
    assert!(s.starts_with("5.1"), "got: {}", s);
}

#[test]
fn util_mention_query_basic() {
    assert_eq!(extract_mention_query("fix @main").as_deref(), Some("main"));
    assert_eq!(extract_mention_query("fix @main ").as_deref(), None);
    assert_eq!(extract_mention_query("@src/lib").as_deref(), Some("src/lib"));
    assert_eq!(extract_mention_query("no at sign").as_deref(), None);
    assert_eq!(extract_mention_query("@").as_deref(), Some(""));
}

#[test]
fn util_mention_query_last_at_wins() {
    assert_eq!(extract_mention_query("@foo @bar").as_deref(), Some("bar"));
    assert_eq!(extract_mention_query("@foo @bar ").as_deref(), None);
    assert_eq!(extract_mention_query("email@ex.com @file").as_deref(), Some("file"));
}

#[test]
fn util_fuzzy_match_empty_query_returns_all() {
    let paths: Vec<String> = vec!["src/main.rs".to_string(), "src/tools.rs".to_string()];
    let result = fuzzy_match_paths(&paths, "", 10);
    assert_eq!(result.len(), 2);
}

#[test]
fn util_fuzzy_match_filters_by_query() {
    let paths: Vec<String> = vec![
        "src/main.rs".to_string(),
        "src/tools.rs".to_string(),
        "Cargo.toml".to_string(),
    ];
    let result = fuzzy_match_paths(&paths, "tool", 10);
    assert_eq!(result.len(), 1);
    assert_eq!(result[0], "src/tools.rs");
}

#[test]
fn util_fuzzy_match_respects_max_results() {
    let paths: Vec<String> = (0..20).map(|i| format!("file{i}.rs")).collect();
    let result = fuzzy_match_paths(&paths, "file", 5);
    assert_eq!(result.len(), 5);
}

#[test]
fn util_build_file_context_single() {
    let files = vec![("src/main.rs".to_string(), "fn main() {}".to_string())];
    let ctx = build_file_context(&files);
    assert!(ctx.contains("src/main.rs"));
    assert!(ctx.contains("fn main() {}"));
    assert!(ctx.starts_with("```"));
}

#[test]
fn util_build_file_context_multi_separator() {
    let files = vec![
        ("a.rs".to_string(), "aaa".to_string()),
        ("b.rs".to_string(), "bbb".to_string()),
    ];
    let ctx = build_file_context(&files);
    assert!(ctx.contains("\n\n"));
    assert!(ctx.contains("aaa"));
    assert!(ctx.contains("bbb"));
}

#[test]
fn util_summarize_write_file_success() {
    let args = r#"{"path":"src/foo.rs","content":"hello"}"#;
    let (summary, success) = summarize_tool_result("write_file", args, "OK: wrote 5 bytes");
    assert!(summary.contains("src/foo.rs"));
    assert!(summary.contains("5 bytes"));
    assert!(success);
}

#[test]
fn util_summarize_write_file_error_result() {
    let args = r#"{"path":"src/foo.rs","content":"x"}"#;
    let (_, success) = summarize_tool_result("write_file", args, "Error: permission denied");
    assert!(!success);
}

#[test]
fn util_summarize_run_command_truncates_long_command() {
    let long = "x".repeat(200);
    let args = format!(r#"{{"command":"{}"}}"#, long);
    let (summary, _) = summarize_tool_result("run_command", &args, "OK");
    assert!(summary.starts_with("$ "));
    assert!(summary.len() <= 62);
}

#[test]
fn util_summarize_unknown_tool() {
    let (summary, success) = summarize_tool_result("foo", "{}", "first line\nsecond line");
    assert_eq!(summary, "first line");
    assert!(success);
}

#[test]
fn util_summarize_err_marker() {
    let (_, success) = summarize_tool_result("foo", "{}", "[err] something broke");
    assert!(!success);
}

#[test]
fn util_tests_fmt_bytes_units() {
    assert_eq!(fmt_bytes(0), "0 B");
    assert_eq!(fmt_bytes(512), "512 B");
    assert_eq!(fmt_bytes(1024), "1 KB");
    assert_eq!(fmt_bytes(1024 * 1024), "1.0 MB");
    assert_eq!(fmt_bytes(1024 * 1024 * 1024), "1.00 GB");
}

#[test]
fn util_tests_fmt_bytes_large_gb() {
    let n = 5_500_000_000u64;
    let s = fmt_bytes(n);
    assert!(s.ends_with(" GB"), "got: {}", s);
    assert!(s.starts_with("5.1"), "got: {}", s);
}

#[test]
fn util_tests_mention_query_basic() {
    assert_eq!(extract_mention_query("fix @main").as_deref(), Some("main"));
    assert_eq!(extract_mention_query("fix @main ").as_deref(), None);
    assert_eq!(extract_mention_query("@src/lib").as_deref(), Some("src/lib"));
    assert_eq!(extract_mention_query("no at sign").as_deref(), None);
    assert_eq!(extract_mention_query("@").as_deref(), Some(""));
}

#[test]
fn util_tests_mention_query_last_at_wins() {
    assert_eq!(extract_mention_query("@foo @bar").as_deref(), Some("bar"));
    assert_eq!(extract_mention_query("@foo @bar ").as_deref(), None);
    assert_eq!(extract_mention_query("email@ex.com @file").as_deref(), Some("file"));
}

#[test]
fn util_tests_fuzzy_match_empty_query_returns_all() {
    let paths: Vec<String> = vec!["src/main.rs".to_string(), "src/tools.rs".to_string()];
    let result = fuzzy_match_paths(&paths, "", 10);
    assert_eq!(result.len(), 2);
}

#[test]
fn util_tests_fuzzy_match_filters_by_query() {
    let paths: Vec<String> = vec![
        "src/main.rs".to_string(),
        "src/tools.rs".to_string(),
        "Cargo.toml".to_string(),
    ];
    let result = fuzzy_match_paths(&paths, "tool", 10);
    assert_eq!(result.len(), 1);
    assert_eq!(result[0], "src/tools.rs");
}

#[test]
fn util_tests_fuzzy_match_respects_max_results() {
    let paths: Vec<String> = (0..20).map(|i| format!("file{i}.rs")).collect();
    let result = fuzzy_match_paths(&paths, "file", 5);
    assert_eq!(result.len(), 5);
}

#[test]
fn util_tests_build_file_context_single() {
    let files = vec![("src/main.rs".to_string(), "fn main() {}".to_string())];
    let ctx = build_file_context(&files);
    assert!(ctx.contains("src/main.rs"));
    assert!(ctx.contains("fn main() {}"));
    assert!(ctx.starts_with("```"));
}

#[test]
fn util_tests_build_file_context_multi_separator() {
    let files = vec![
        ("a.rs".to_string(), "aaa".to_string()),
        ("b.rs".to_string(), "bbb".to_string()),
    ];
    let ctx = build_file_context(&files);
    assert!(ctx.contains("\n\n"));
    assert!(ctx.contains("aaa"));
    assert!(ctx.contains("bbb"));
}

#[test]
fn util_tests_summarize_write_file_success() {
    let args = r#"{"path":"src/foo.rs","content":"hello"}"#;
    let (summary, success) = summarize_tool_result("write_file", args, "OK: wrote 5 bytes");
    assert!(summary.contains("src/foo.rs"));
    assert!(summary.contains("5 bytes"));
    assert!(success);
}

#[test]
fn util_tests_summarize_write_file_error_result() {
    let args = r#"{"path":"src/foo.rs","content":"x"}"#;
    let (_, success) = summarize_tool_result("write_file", args, "Error: permission denied");
    assert!(!success);
}

#[test]
fn util_tests_summarize_run_command_truncates_long_command() {
    let long = "x".repeat(200);
    let args = format!(r#"{{"command":"{}"}}"#, long);
    let (summary, _) = summarize_tool_result("run_command", &args, "OK");
    assert!(summary.starts_with("$ "));
    assert!(summary.len() <= 62);
}

#[test]
fn util_tests_summarize_unknown_tool() {
    let (summary, success) = summarize_tool_result("foo", "{}", "first line\nsecond line");
    assert_eq!(summary, "first line");
    assert!(success);
}

#[test]
fn util_tests_summarize_err_marker() {
    let (_, success) = summarize_tool_result("foo", "{}", "[err] something broke");
    assert!(!success);
}

#[test]
fn is_text_file_known_extensions() {
    assert!(is_text_file("main.rs"));
    assert!(is_text_file("Cargo.toml"));
    assert!(is_text_file("README.md"));
    assert!(is_text_file("Dockerfile"));
    assert!(!is_text_file("image.png"));
    assert!(!is_text_file("archive.zip"));
}
