//! `latch list`: each session's liveness and its line in the listing.

use vstd::prelude::*;
use crate::listing::{sort_listing, sorted_listing, Listed};
use crate::session::{SessionMeta, SessionStatus};
use crate::text::{chars_of, decimal, pad_right, push_decimal, push_padded, push_str};

verus! {

/// Information about a session for display.
#[derive(Debug)]
pub struct SessionInfo {
    pub name: String,
    pub cmd: String,
    pub pid: u32,
    pub status: LiveStatus,
    pub is_current: bool,
}

/// Live status determined by probing the socket and the process.
#[derive(Debug, Clone, Copy, PartialEq, Eq, Structural)]
pub enum LiveStatus {
    Attached,
    Detached,
    Dead,
}

/// Determine live status for a session from the probes: whether its server
/// process is alive, and whether its socket accepts a connection (probed
/// only for a live process). A reachable session is attached when its
/// metadata says so.
pub fn check_liveness(meta: &SessionMeta, pid_alive: bool, socket_reachable: bool) -> (r: LiveStatus)
    ensures
        r == (if !pid_alive || !socket_reachable {
            LiveStatus::Dead
        } else if meta.status == SessionStatus::Attached {
            LiveStatus::Attached
        } else {
            LiveStatus::Detached
        }),
{
    if !pid_alive {
        return LiveStatus::Dead;
    }
    if socket_reachable {
        match meta.status {
            SessionStatus::Attached => LiveStatus::Attached,
            _ => LiveStatus::Detached,
        }
    } else {
        LiveStatus::Dead
    }
}

/// The glyph of a live status.
pub open spec fn live_icon(status: LiveStatus) -> Seq<char> {
    match status {
        LiveStatus::Attached => "\u{25CF}"@,
        LiveStatus::Detached => "\u{25CB}"@,
        LiveStatus::Dead => "\u{2717}"@,
    }
}

/// A session's line: `*` for the current session, the name in 6 columns,
/// the glyph in brackets, the command in 6 columns, then `(dead)` or the
/// server's pid.
pub open spec fn session_line_text(info: SessionInfo) -> Seq<char> {
    (if info.is_current {
        "*"@
    } else {
        " "@
    }) + " "@ + pad_right(info.name@, 6) + " ["@ + live_icon(info.status) + "] "@ + pad_right(
        info.cmd@,
        6,
    ) + if info.status == LiveStatus::Dead {
        " (dead)"@
    } else {
        " pid="@ + decimal(info.pid as nat)
    }
}

/// Format a session line for display.
pub fn format_session_line(info: &SessionInfo) -> (r: String)
    ensures
        r@ == session_line_text(*info),
{
    let mut out = String::new();
    if info.is_current {
        push_str(&mut out, "*");
    } else {
        push_str(&mut out, " ");
    }
    push_str(&mut out, " ");
    push_padded(&mut out, info.name.as_str(), 6);
    push_str(&mut out, " [");
    match info.status {
        LiveStatus::Attached => push_str(&mut out, "\u{25CF}"),
        LiveStatus::Detached => push_str(&mut out, "\u{25CB}"),
        LiveStatus::Dead => push_str(&mut out, "\u{2717}"),
    }
    push_str(&mut out, "] ");
    push_padded(&mut out, info.cmd.as_str(), 6);
    if info.status == LiveStatus::Dead {
        push_str(&mut out, " (dead)");
    } else {
        push_str(&mut out, " pid=");
        push_decimal(&mut out, info.pid as u64);
    }
    assert(out@ =~= session_line_text(*info));
    out
}

/// The session is the one named by `$LATCH_SESSION`.
pub open spec fn is_current_spec(meta: SessionMeta, current_session: Option<Seq<char>>) -> bool {
    current_session == Some(meta.name@)
}

/// Whether `meta` is the session named `current_session` (the value of
/// `$LATCH_SESSION`, if set).
pub fn is_current_session(meta: &SessionMeta, current_session: Option<&str>) -> (r: bool)
    ensures
        r == is_current_spec(*meta, match current_session {
            Some(s) => Some(s@),
            None => None,
        }),
{
    match current_session {
        Some(s) => crate::text::chars_eq(&chars_of(s), &chars_of(meta.name.as_str())),
        None => false,
    }
}

/// The listing entry of a session.
pub fn session_info(meta: SessionMeta, status: LiveStatus, is_current: bool) -> (r: SessionInfo)
    ensures
        r.name == meta.name,
        r.cmd == meta.cmd,
        r.pid == meta.pid,
        r.status == status,
        r.is_current == is_current,
{
    SessionInfo { name: meta.name, cmd: meta.cmd, pid: meta.pid, status, is_current }
}

impl Listed for SessionInfo {
    open spec fn current_spec(&self) -> bool {
        self.is_current
    }

    open spec fn name_spec(&self) -> Seq<char> {
        self.name@
    }

    fn is_current(&self) -> (r: bool) {
        self.is_current
    }

    fn name_chars(&self) -> (r: Vec<char>) {
        chars_of(self.name.as_str())
    }
}

/// Sort the listing: the current session first, then by name.
pub fn sort_sessions(sessions: Vec<SessionInfo>) -> (r: Vec<SessionInfo>)
    ensures
        r@ == sorted_listing(sessions@),
{
    sort_listing(sessions)
}

} // verus!
