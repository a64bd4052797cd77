use latch::session::{
    format_session_id, generate_session_id, resolve_session, ResolveError, SessionMeta,
    SessionPaths, SessionStatus,
};

fn meta(id: &str, name: &str) -> SessionMeta {
    SessionMeta {
        id: id.to_string(),
        name: name.to_string(),
        cmd: "bash".to_string(),
        pid: 1,
        created_at: "now".to_string(),
        status: SessionStatus::Detached,
    }
}

#[test]
fn session_paths_have_correct_structure() {
    let base = "/tmp/latch-test";
    let paths = SessionPaths::from_base(base, "abc123");

    assert_eq!(paths.dir, "/tmp/latch-test/abc123");
    assert_eq!(paths.socket, "/tmp/latch-test/abc123/server.sock");
    assert_eq!(paths.history, "/tmp/latch-test/abc123/history.bin");
    assert_eq!(paths.meta, "/tmp/latch-test/abc123/meta.json");
}

#[test]
fn update_status_changes_meta_file() {
    let mut meta = SessionMeta {
        id: "s1".to_string(),
        name: "test".to_string(),
        cmd: "bash".to_string(),
        pid: 100,
        created_at: "now".to_string(),
        status: SessionStatus::Detached,
    };
    meta.update_status(SessionStatus::Attached);
    assert_eq!(meta.status, SessionStatus::Attached);
    assert_eq!(meta.name, "test");
    assert_eq!(meta.pid, 100);
}

#[test]
fn generate_session_id_has_correct_format() {
    let id = generate_session_id();
    assert!(id.starts_with("session-"));
    assert_eq!(id.len(), "session-".len() + 6);
    // All chars after prefix are hex
    for c in id["session-".len()..].chars() {
        assert!(c.is_ascii_hexdigit());
    }
}

#[test]
fn resolve_session_by_name() {
    let sessions = vec![meta("session-aaa111", "work")];
    let (id, resolved) = resolve_session(&sessions, "work").unwrap();
    assert_eq!(id, "session-aaa111");
    assert_eq!(resolved.name, "work");
}

#[test]
fn resolve_session_by_id_prefix() {
    let sessions = vec![SessionMeta {
        id: "session-bbb222".to_string(),
        name: "dev".to_string(),
        cmd: "zsh".to_string(),
        pid: 2,
        created_at: "now".to_string(),
        status: SessionStatus::Detached,
    }];
    let (id, _) = resolve_session(&sessions, "sess").unwrap();
    assert_eq!(id, "session-bbb222");
}

// --- further cases ---

#[test]
fn session_id_from_values_uses_low_nibbles() {
    assert_eq!(format_session_id(&[0, 1, 10, 15, 16, 255]), "session-01af0f");
}

#[test]
fn paths_join_like_unix_paths() {
    let p = SessionPaths::from_base("/base/", "id");
    assert_eq!(p.dir, "/base/id");
    let p = SessionPaths::from_base("", "id");
    assert_eq!(p.dir, "id");
    assert_eq!(p.meta, "id/meta.json");
    let p = SessionPaths::from_base("/base", "/abs");
    assert_eq!(p.dir, "/abs");
}

#[test]
fn exact_name_wins_over_id_prefix() {
    let sessions = vec![meta("session-aaa", "x"), meta("session-bbb", "session")];
    let (id, _) = resolve_session(&sessions, "session").unwrap();
    assert_eq!(id, "session-bbb");
}

#[test]
fn first_exact_name_wins() {
    let sessions = vec![meta("session-1", "dup"), meta("session-2", "dup")];
    let (id, _) = resolve_session(&sessions, "dup").unwrap();
    assert_eq!(id, "session-1");
}

#[test]
fn short_prefix_does_not_match() {
    let sessions = vec![meta("session-aaa", "work")];
    assert_eq!(resolve_session(&sessions, "ses").err(), Some(ResolveError::NotFound));
}

#[test]
fn ambiguous_prefix_counts_matches() {
    let sessions = vec![
        meta("session-aaa", "a"),
        meta("session-aab", "b"),
        meta("other-x", "c"),
    ];
    assert_eq!(
        resolve_session(&sessions, "session-aa").err(),
        Some(ResolveError::Ambiguous { count: 2 })
    );
    let (id, _) = resolve_session(&sessions, "session-aab").unwrap();
    assert_eq!(id, "session-aab");
}

#[test]
fn no_sessions_resolve_to_not_found() {
    assert_eq!(resolve_session(&[], "work").err(), Some(ResolveError::NotFound));
}
