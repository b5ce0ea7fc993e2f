use ai_terminal::suggest::{
    best_match, extract_missing_token, replace_first, suggest, token_distance,
};

#[test]
fn proposes_the_close_filename() {
    // The canonical correction: a two-letter transposition scores 2, within
    // the acceptance bound.
    let stderr = "rm: cannot remove 'index.hmtl': No such file or directory";
    let entries = vec!["index.html".to_string()];
    let fixed = suggest("rm index.hmtl", stderr, &entries);
    assert_eq!(fixed.as_deref(), Some("rm index.html"));
}

#[test]
fn distance_counts_length_gap_and_position_mismatches() {
    assert_eq!(token_distance("index.hmtl", "index.html"), 2);
    assert_eq!(token_distance("abc", "abc"), 0);
    assert_eq!(token_distance("abc", "abcd"), 1);
    assert_eq!(token_distance("abc", "axc"), 1);
    // Not an edit distance: a shift misaligns every later position.
    assert_eq!(token_distance("abcdef", "xabcdef"), 7);
}

#[test]
fn no_proposal_when_nothing_scores_close_enough() {
    let stderr = "rm: cannot remove 'index.hmtl': No such file or directory";
    let entries = vec!["Makefile".to_string(), "README.md".to_string()];
    assert_eq!(suggest("rm index.hmtl", stderr, &entries), None);
}

#[test]
fn ties_keep_the_first_entry() {
    let entries = vec!["filea".to_string(), "fileb".to_string()];
    let found = best_match("filex", &entries);
    assert_eq!(found.as_deref(), Some("filea"));
}

#[test]
fn extracts_cannot_remove_token() {
    let t = extract_missing_token("rm: cannot remove 'notes.txt': No such file or directory");
    assert_eq!(t.as_deref(), Some("notes.txt"));
}

#[test]
fn extracts_cannot_access_token() {
    let t = extract_missing_token("ls: cannot access 'missing': No such file or directory");
    assert_eq!(t.as_deref(), Some("missing"));
}

#[test]
fn falls_back_to_the_second_colon_field() {
    let t = extract_missing_token("ls: missing_dir: No such file or directory");
    assert_eq!(t.as_deref(), Some("missing_dir"));
}

#[test]
fn no_token_in_unrelated_stderr() {
    assert_eq!(extract_missing_token("permission denied"), None);
}

#[test]
fn replaces_only_the_first_occurrence() {
    assert_eq!(replace_first("cp a a", "a", "b"), "cp b a");
    assert_eq!(replace_first("echo hi", "absent", "x"), "echo hi");
}

#[test]
fn end_to_end_fallback_phrase_corrects_directory_name() {
    let stderr = "ls: missing_dri: No such file or directory";
    let entries = vec!["missing_dir".to_string(), "other".to_string()];
    let fixed = suggest("ls missing_dri", stderr, &entries);
    assert_eq!(fixed.as_deref(), Some("ls missing_dir"));
}
