use ai_terminal::capture::{build_result, launch_failure_result, truncate, MAX_CAPTURE_LEN};

const MARKER: &str = "\n... (truncated)";

#[test]
fn short_text_is_kept_whole() {
    assert_eq!(truncate("hello"), "hello");
    assert_eq!(truncate(""), "");
}

#[test]
fn text_at_the_cap_is_kept_whole() {
    let s = "x".repeat(MAX_CAPTURE_LEN);
    assert_eq!(truncate(&s), s);
}

#[test]
fn long_text_is_cut_with_marker() {
    let s = "a".repeat(MAX_CAPTURE_LEN + 100);
    let t = truncate(&s);
    assert_eq!(t.chars().count(), MAX_CAPTURE_LEN + MARKER.chars().count());
    assert!(t.ends_with(MARKER));
    assert_eq!(&t[..MAX_CAPTURE_LEN], &s[..MAX_CAPTURE_LEN]);
}

#[test]
fn truncation_never_cuts_silently() {
    let s = "ab".repeat(2000);
    let t = truncate(&s);
    assert!(t.ends_with(MARKER));
    assert!(t.starts_with(&s[..MAX_CAPTURE_LEN]));
}

#[test]
fn success_means_exit_code_zero() {
    let ok = build_result(0, "out", "err");
    assert!(ok.success);
    assert_eq!(ok.exit_code, 0);
    let bad = build_result(2, "out", "err");
    assert!(!bad.success);
    assert_eq!(bad.exit_code, 2);
}

#[test]
fn build_result_truncates_each_stream_independently() {
    let long = "z".repeat(1000);
    let r = build_result(1, &long, "short");
    assert!(r.stdout.ends_with(MARKER));
    assert_eq!(r.stderr, "short");
}

#[test]
fn launch_failure_is_a_result_value() {
    let r = launch_failure_result("No such file or directory (os error 2)");
    assert_eq!(r.exit_code, -1);
    assert!(!r.success);
    assert_eq!(r.stdout, "");
    assert_eq!(r.stderr, "No such file or directory (os error 2)");
}

#[test]
fn ai_view_format_is_exact() {
    let r = build_result(2, "partial", "ls: missing: No such file or directory");
    assert_eq!(
        r.ai_view(),
        "exit_code: 2\nstdout:\npartial\nstderr:\nls: missing: No such file or directory"
    );
}

#[test]
fn ai_view_renders_negative_exit_code() {
    let r = launch_failure_result("spawn failed");
    assert_eq!(r.ai_view(), "exit_code: -1\nstdout:\n\nstderr:\nspawn failed");
}
