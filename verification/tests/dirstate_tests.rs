use ai_terminal::dirstate::{apply_cd, resolve_cd_target, resolve_with_home};
use ai_terminal::log::{ConversationLog, Role};

#[test]
fn absolute_paths_pass_through() {
    let home = Some("/home/me".to_string());
    assert_eq!(resolve_with_home("/etc", "/tmp", &home), "/etc");
}

#[test]
fn relative_paths_join_the_current_directory() {
    let home = Some("/home/me".to_string());
    assert_eq!(resolve_with_home("src", "/work", &home), "/work/src");
}

#[test]
fn join_does_not_double_the_separator() {
    let home = None;
    assert_eq!(resolve_with_home("src", "/work/", &home), "/work/src");
}

#[test]
fn empty_and_tilde_resolve_to_home() {
    let home = Some("/home/me".to_string());
    assert_eq!(resolve_with_home("", "/tmp", &home), "/home/me");
    assert_eq!(resolve_with_home("~", "/tmp", &home), "/home/me");
}

#[test]
fn missing_home_falls_back_to_the_current_directory() {
    assert_eq!(resolve_with_home("", "/tmp", &None), "/tmp");
    assert_eq!(resolve_with_home("~", "/tmp", &None), "/tmp");
}

#[test]
fn resolve_cd_target_matches_for_non_home_arguments() {
    let cwd = "/work".to_string();
    assert_eq!(resolve_cd_target("sub", &cwd), "/work/sub");
    assert_eq!(resolve_cd_target("/opt", &cwd), "/opt");
}

#[test]
fn successful_cd_commits_and_confirms() {
    let mut cwd = "/old".to_string();
    let mut log = ConversationLog::new();
    apply_cd(&mut cwd, &mut log, "/new", true);
    assert_eq!(cwd, "/new");
    assert_eq!(log.len(), 1);
    assert_eq!(log.get(0).role, Role::Assistant);
    assert_eq!(log.get(0).content, "Changed directory to /new");
}

#[test]
fn failed_cd_leaves_the_directory_unchanged() {
    let mut cwd = "/old".to_string();
    let mut log = ConversationLog::new();
    apply_cd(&mut cwd, &mut log, "/nowhere", false);
    assert_eq!(cwd, "/old");
    assert_eq!(log.len(), 1);
    assert_eq!(log.get(0).role, Role::User);
    assert_eq!(log.get(0).content, "cd failed: /nowhere");
}
