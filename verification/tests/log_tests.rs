use ai_terminal::log::{ConversationLog, Message, Role};

#[test]
fn round_trip_preserves_role_content_and_order() {
    let roles = [Role::System, Role::User, Role::Assistant, Role::User, Role::Assistant];
    let mut log = ConversationLog::new();
    for (i, role) in roles.iter().enumerate() {
        log.append(Message { role: *role, content: format!("entry {}", i) });
    }
    assert_eq!(log.len(), roles.len());
    for (i, role) in roles.iter().enumerate() {
        let m = log.get(i);
        assert_eq!(m.role, *role);
        assert_eq!(m.content, format!("entry {}", i));
    }
}

#[test]
fn append_keeps_earlier_entries_in_place() {
    let mut log = ConversationLog::new();
    log.append(Message { role: Role::System, content: "first".to_string() });
    log.append(Message { role: Role::User, content: "second".to_string() });
    assert_eq!(log.get(0).content, "first");
    log.append(Message { role: Role::Assistant, content: "third".to_string() });
    assert_eq!(log.get(0).content, "first");
    assert_eq!(log.get(1).content, "second");
    assert_eq!(log.get(2).content, "third");
}

#[test]
fn empty_log_has_no_entries() {
    let log = ConversationLog::new();
    assert_eq!(log.len(), 0);
}
