use latch::commands::list::{
    check_liveness, format_session_line, is_current_session, session_info, sort_sessions,
    LiveStatus, SessionInfo,
};
use latch::session::{SessionMeta, SessionStatus};

#[test]
fn format_attached_session() {
    let info = SessionInfo {
        name: "work".to_string(),
        cmd: "bash".to_string(),
        pid: 1234,
        status: LiveStatus::Attached,
        is_current: true,
    };
    let line = format_session_line(&info);
    assert!(line.starts_with("*"));
    assert!(line.contains("work"));
    assert!(line.contains("\u{25CF}")); // filled circle
    assert!(line.contains("bash"));
    assert!(line.contains("pid=1234"));
}

#[test]
fn format_detached_session() {
    let info = SessionInfo {
        name: "dev".to_string(),
        cmd: "zsh".to_string(),
        pid: 5678,
        status: LiveStatus::Detached,
        is_current: false,
    };
    let line = format_session_line(&info);
    assert!(line.starts_with(" "));
    assert!(line.contains("dev"));
    assert!(line.contains("\u{25CB}")); // empty circle
    assert!(line.contains("pid=5678"));
}

#[test]
fn format_dead_session() {
    let info = SessionInfo {
        name: "old".to_string(),
        cmd: "bash".to_string(),
        pid: 9999,
        status: LiveStatus::Dead,
        is_current: false,
    };
    let line = format_session_line(&info);
    assert!(line.contains("\u{2717}")); // cross mark
    assert!(line.contains("(dead)"));
    assert!(!line.contains("pid="));
}

#[test]
fn current_session_has_star_prefix() {
    let info = SessionInfo {
        name: "cur".to_string(),
        cmd: "bash".to_string(),
        pid: 1,
        status: LiveStatus::Attached,
        is_current: true,
    };
    let line = format_session_line(&info);
    assert!(line.starts_with("*"));
}

#[test]
fn non_current_session_has_space_prefix() {
    let info = SessionInfo {
        name: "other".to_string(),
        cmd: "bash".to_string(),
        pid: 1,
        status: LiveStatus::Detached,
        is_current: false,
    };
    let line = format_session_line(&info);
    assert!(line.starts_with(" "));
}

// --- further cases ---

fn meta(name: &str, status: SessionStatus) -> SessionMeta {
    SessionMeta {
        id: format!("session-{}", name),
        name: name.to_string(),
        cmd: "bash".to_string(),
        pid: 42,
        created_at: "now".to_string(),
        status,
    }
}

#[test]
fn format_line_exact_layout() {
    let info = SessionInfo {
        name: "dev".to_string(),
        cmd: "zsh".to_string(),
        pid: 5678,
        status: LiveStatus::Detached,
        is_current: false,
    };
    assert_eq!(format_session_line(&info), "  dev    [\u{25CB}] zsh    pid=5678");
    let dead = SessionInfo {
        status: LiveStatus::Dead,
        ..info
    };
    assert_eq!(format_session_line(&dead), "  dev    [\u{2717}] zsh    (dead)");
}

#[test]
fn liveness_from_probes() {
    let attached = meta("a", SessionStatus::Attached);
    let detached = meta("d", SessionStatus::Detached);
    assert_eq!(check_liveness(&attached, false, true), LiveStatus::Dead);
    assert_eq!(check_liveness(&attached, true, false), LiveStatus::Dead);
    assert_eq!(check_liveness(&attached, true, true), LiveStatus::Attached);
    assert_eq!(check_liveness(&detached, true, true), LiveStatus::Detached);
    assert_eq!(
        check_liveness(&meta("x", SessionStatus::Dead), true, true),
        LiveStatus::Detached
    );
}

#[test]
fn current_first_then_by_name() {
    let infos = vec![
        session_info(meta("zeta", SessionStatus::Detached), LiveStatus::Detached, false),
        session_info(meta("beta", SessionStatus::Detached), LiveStatus::Dead, false),
        session_info(meta("work", SessionStatus::Attached), LiveStatus::Attached, true),
        session_info(meta("alpha", SessionStatus::Detached), LiveStatus::Detached, false),
    ];
    let sorted = sort_sessions(infos);
    let names: Vec<&str> = sorted.iter().map(|i| i.name.as_str()).collect();
    assert_eq!(names, vec!["work", "alpha", "beta", "zeta"]);
}

#[test]
fn equal_names_keep_their_order() {
    let mut first = session_info(meta("same", SessionStatus::Detached), LiveStatus::Detached, false);
    first.pid = 1;
    let mut second = session_info(meta("same", SessionStatus::Detached), LiveStatus::Detached, false);
    second.pid = 2;
    let sorted = sort_sessions(vec![first, second]);
    assert_eq!(sorted[0].pid, 1);
    assert_eq!(sorted[1].pid, 2);
}

#[test]
fn current_session_matches_name() {
    let m = meta("work", SessionStatus::Detached);
    assert!(is_current_session(&m, Some("work")));
    assert!(!is_current_session(&m, Some("dev")));
    assert!(!is_current_session(&m, None));
}
