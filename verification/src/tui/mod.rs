//! The interactive session picker.

pub mod events;
pub mod state;
pub mod ui;

use vstd::prelude::*;
use crate::commands::list::{is_current_spec, LiveStatus};
use crate::listing::{sort_listing, sorted_listing, Listed};
use crate::session::SessionMeta;
use crate::text::chars_of;
use state::{Action, AppState, SessionEntry, SessionStatus};

verus! {

/// How often the picker reloads the session list, in seconds.
pub const REFRESH_SECS: u64 = 2;

/// The picker's status for a session: `Current` for the session named by
/// `$LATCH_SESSION` (whose liveness is then not probed), else its liveness.
pub fn detect_status(meta: &SessionMeta, current_session: Option<&str>, live: LiveStatus) -> (r:
    SessionStatus)
    ensures
        r == (if is_current_spec(*meta, match current_session {
            Some(s) => Some(s@),
            None => None,
        }) {
            SessionStatus::Current
        } else {
            match live {
                LiveStatus::Attached => SessionStatus::Attached,
                LiveStatus::Detached => SessionStatus::Detached,
                LiveStatus::Dead => SessionStatus::Dead,
            }
        }),
{
    if crate::commands::list::is_current_session(meta, current_session) {
        return SessionStatus::Current;
    }
    match live {
        LiveStatus::Attached => SessionStatus::Attached,
        LiveStatus::Detached => SessionStatus::Detached,
        LiveStatus::Dead => SessionStatus::Dead,
    }
}

impl Listed for SessionEntry {
    open spec fn current_spec(&self) -> bool {
        self.status == SessionStatus::Current
    }

    open spec fn name_spec(&self) -> Seq<char> {
        self.meta.name@
    }

    fn is_current(&self) -> (r: bool) {
        self.status == SessionStatus::Current
    }

    fn name_chars(&self) -> (r: Vec<char>) {
        chars_of(self.meta.name.as_str())
    }
}

/// Sort the picker's entries: the current session first, then by name.
pub fn sort_entries(entries: Vec<SessionEntry>) -> (r: Vec<SessionEntry>)
    ensures
        r@ == sorted_listing(entries@),
{
    sort_listing(entries)
}


/// What the picker's loop does after a key produced an action.
#[derive(Debug, Clone, PartialEq)]
pub enum PickerStep {
    /// Keep running.
    Continue,
    /// Close the picker, handing back what to do next (if anything).
    Exit(Option<Action>),
    /// Kill the session, reload the list, and close the picker afterwards
    /// when the killed session was the current one.
    Kill { session_id: String, then_quit: bool },
    /// Remove a dead session's files, then reload the list.
    Cleanup { session_id: String },
    /// Rename the session, then reload the list.
    Rename { session_id: String, new_name: String },
}

/// The selected entry is the current session.
pub open spec fn selected_is_current(app: AppState) -> bool {
    match app.selected_spec() {
        Some(e) => e.status == SessionStatus::Current,
        None => false,
    }
}

/// Decide the picker loop's step for an action: quitting, attaching and
/// creating close the picker; killing, cleaning up and renaming are done in
/// place.
pub fn picker_step(app: &AppState, action: Action) -> (r: PickerStep)
    ensures
        match action {
            Action::Noop => r == PickerStep::Continue,
            Action::Quit => r == PickerStep::Exit(None),
            Action::Attach { session_id } => r == PickerStep::Exit(
                Some(Action::Attach { session_id }),
            ),
            Action::NewSession { name } => r == PickerStep::Exit(Some(Action::NewSession { name })),
            Action::KillSession { session_id } => r == PickerStep::Kill {
                session_id,
                then_quit: selected_is_current(*app),
            },
            Action::CleanupDead { session_id } => r == PickerStep::Cleanup { session_id },
            Action::RenameSession { session_id, new_name } => r == PickerStep::Rename {
                session_id,
                new_name,
            },
        },
{
    match action {
        Action::Noop => PickerStep::Continue,
        Action::Quit => PickerStep::Exit(None),
        Action::Attach { session_id } => PickerStep::Exit(Some(Action::Attach { session_id })),
        Action::NewSession { name } => PickerStep::Exit(Some(Action::NewSession { name })),
        Action::KillSession { session_id } => {
            let then_quit = match app.selected_entry() {
                Some(e) => e.status == SessionStatus::Current,
                None => false,
            };
            PickerStep::Kill { session_id, then_quit }
        },
        Action::CleanupDead { session_id } => PickerStep::Cleanup { session_id },
        Action::RenameSession { session_id, new_name } => PickerStep::Rename {
            session_id,
            new_name,
        },
    }
}

} // verus!
