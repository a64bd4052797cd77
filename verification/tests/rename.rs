use latch::commands::rename::{name_exists, run, run_by_id, RenameError};
use latch::session::{ResolveError, SessionMeta, SessionStatus};

fn create_session(sessions: &mut Vec<SessionMeta>, id: &str, name: &str) {
    sessions.push(SessionMeta {
        id: id.to_string(),
        name: name.to_string(),
        cmd: "bash".to_string(),
        pid: 1000,
        created_at: "2026-01-01T00:00:00Z".to_string(),
        status: SessionStatus::Detached,
    });
}

#[test]
fn name_exists_returns_true_for_existing() {
    let mut sessions = Vec::new();
    create_session(&mut sessions, "session-aaa111", "work");

    assert!(name_exists(&sessions, "work"));
}

#[test]
fn name_exists_returns_false_for_missing() {
    let mut sessions = Vec::new();
    create_session(&mut sessions, "session-aaa111", "work");

    assert!(!name_exists(&sessions, "nothere"));
}

#[test]
fn name_exists_returns_false_for_empty_dir() {
    let sessions: Vec<SessionMeta> = Vec::new();
    assert!(!name_exists(&sessions, "work"));
}

#[test]
fn rename_fails_on_name_conflict() {
    let mut sessions = Vec::new();
    create_session(&mut sessions, "session-aaa111", "work");
    create_session(&mut sessions, "session-bbb222", "dev");

    let current = sessions[1].clone();
    let result = run_by_id(&sessions, current, "work");
    assert!(result.is_err());
    let err = result.err().unwrap();
    assert_eq!(err, RenameError::AlreadyExists);
    assert_eq!(err.message("session-bbb222", "work"), "error: session 'work' already exists");
    // Original unchanged
    assert_eq!(sessions[1].name, "dev");
}

#[test]
fn rename_updates_meta_json() {
    let mut sessions = Vec::new();
    create_session(&mut sessions, "session-aaa111", "old");

    let renamed = run_by_id(&sessions, sessions[0].clone(), "new").unwrap();
    assert_eq!(renamed.name, "new");
    assert_eq!(renamed.id, "session-aaa111");
}

#[test]
fn rename_via_run_resolves_name() {
    let mut sessions = Vec::new();
    create_session(&mut sessions, "session-aaa111", "mywork");

    let id = run(&sessions, "mywork", "myproject").unwrap();
    assert_eq!(id, "session-aaa111");
}

// --- further cases ---

#[test]
fn rename_of_unknown_target_is_unresolved() {
    let mut sessions = Vec::new();
    create_session(&mut sessions, "session-aaa111", "work");
    assert_eq!(
        run(&sessions, "nope", "fresh").err(),
        Some(RenameError::Unresolved(ResolveError::NotFound))
    );
}

#[test]
fn rename_conflict_is_checked_before_resolving() {
    let mut sessions = Vec::new();
    create_session(&mut sessions, "session-aaa111", "work");
    create_session(&mut sessions, "session-bbb222", "dev");
    assert_eq!(run(&sessions, "nope", "dev").err(), Some(RenameError::AlreadyExists));
}

#[test]
fn rename_error_messages_name_the_target() {
    assert_eq!(
        RenameError::Unresolved(ResolveError::NotFound).message("nope", "x"),
        "No session found matching 'nope'"
    );
    assert_eq!(
        RenameError::Unresolved(ResolveError::Ambiguous { count: 12 }).message("sess", "x"),
        "Ambiguous session 'sess': matches 12 sessions"
    );
    assert_eq!(ResolveError::NotFound.message("abc"), "No session found matching 'abc'");
}
