//! Key handling for the session picker: from the picker state and a key to
//! the next state and the action to perform.

use vstd::prelude::*;
use super::state::{
    filter_for,
    clamp,
    lemma_clamp,
    selection_in_range,
    Action,
    ActionView,
    AppState,
    Mode,
    ModeView,
    SessionEntry,
    SessionStatus,
};

verus! {

/// The keys the picker tells apart.
#[derive(Debug, Clone, Copy, PartialEq, Eq, Structural)]
pub enum KeyCode {
    Char(char),
    Enter,
    Esc,
    Backspace,
    Up,
    Down,
    Left,
    Right,
    Tab,
    Delete,
    Home,
    End,
    PageUp,
    PageDown,
    /// Any other key.
    Other,
}

/// A key press.
#[derive(Debug, Clone, Copy, PartialEq, Eq, Structural)]
pub struct KeyEvent {
    pub code: KeyCode,
}

impl KeyEvent {
    pub fn new(code: KeyCode) -> (r: Self)
        ensures
            r.code == code,
    {
        KeyEvent { code }
    }
}

/// The key is the character `c`.
pub open spec fn is_char(code: KeyCode, c: char) -> bool {
    code == KeyCode::Char(c)
}

/// Only the mode changed, to `m`.
pub open spec fn only_mode_set(old: AppState, new: AppState, m: ModeView) -> bool {
    &&& new.sessions == old.sessions
    &&& new.selected == old.selected
    &&& new.filtered_indices == old.filtered_indices
    &&& new.mode@ == m
}

/// Only the selection changed, to `s`.
pub open spec fn only_selection_set(old: AppState, new: AppState, s: usize) -> bool {
    &&& new.sessions == old.sessions
    &&& new.mode == old.mode
    &&& new.filtered_indices == old.filtered_indices
    &&& new.selected == s
}

/// The selection one entry down, wrapping around.
pub open spec fn selection_down(app: AppState) -> usize {
    if app.visible_len() > 0 {
        ((app.selected + 1) % (app.visible_len() as int)) as usize
    } else {
        app.selected
    }
}

/// The selection one entry up, wrapping around.
pub open spec fn selection_up(app: AppState) -> usize {
    if app.visible_len() == 0 {
        app.selected
    } else if app.selected == 0 {
        (app.visible_len() - 1) as usize
    } else {
        (app.selected - 1) as usize
    }
}

/// The text after a backspace: the last character removed, if any.
pub open spec fn backspaced(s: Seq<char>) -> Seq<char> {
    if s.len() > 0 {
        s.drop_last()
    } else {
        s
    }
}

/// A key in normal mode: navigation, attach, new, kill, rename, filter, help
/// and quit.
pub open spec fn normal_step(old: AppState, new: AppState, code: KeyCode, action: ActionView) -> bool {
    if is_char(code, 'q') || code == KeyCode::Esc {
        action == ActionView::Quit && new == old
    } else if is_char(code, 'j') || code == KeyCode::Down {
        action == ActionView::Noop && only_selection_set(old, new, selection_down(old))
    } else if is_char(code, 'k') || code == KeyCode::Up {
        action == ActionView::Noop && only_selection_set(old, new, selection_up(old))
    } else if code == KeyCode::Enter {
        &&& new == old
        &&& action == match old.selected_spec() {
            Some(e) => match e.status {
                SessionStatus::Current | SessionStatus::Dead => ActionView::Noop,
                SessionStatus::Attached | SessionStatus::Detached => ActionView::Attach {
                    session_id: e.meta.id@,
                },
            },
            None => ActionView::Noop,
        }
    } else if is_char(code, 'n') {
        action == ActionView::Noop && only_mode_set(
            old,
            new,
            ModeView::NewSession { input: Seq::empty() },
        )
    } else if is_char(code, 'x') {
        match old.selected_spec() {
            Some(e) => if e.status == SessionStatus::Dead {
                action == ActionView::CleanupDead { session_id: e.meta.id@ } && new == old
            } else {
                action == ActionView::Noop && only_mode_set(
                    old,
                    new,
                    ModeView::KillConfirm { session_id: e.meta.id@, name: e.meta.name@ },
                )
            },
            None => action == ActionView::Noop && new == old,
        }
    } else if is_char(code, 'r') {
        match old.selected_spec() {
            Some(e) => if e.status == SessionStatus::Dead {
                action == ActionView::Noop && new == old
            } else {
                action == ActionView::Noop && only_mode_set(
                    old,
                    new,
                    ModeView::Rename {
                        session_id: e.meta.id@,
                        current_name: e.meta.name@,
                        input: Seq::empty(),
                    },
                )
            },
            None => action == ActionView::Noop && new == old,
        }
    } else if is_char(code, '/') {
        action == ActionView::Noop && only_mode_set(
            old,
            new,
            ModeView::Filter { input: Seq::empty() },
        )
    } else if is_char(code, '?') {
        action == ActionView::Noop && only_mode_set(old, new, ModeView::Help)
    } else {
        action == ActionView::Noop && new == old
    }
}

/// A key while typing a new session's name.
pub open spec fn new_session_step(
    old: AppState,
    new: AppState,
    input: Seq<char>,
    code: KeyCode,
    action: ActionView,
) -> bool {
    match code {
        KeyCode::Esc => action == ActionView::Noop && only_mode_set(old, new, ModeView::Normal),
        KeyCode::Enter => {
            &&& only_mode_set(old, new, ModeView::Normal)
            &&& action == if input.len() == 0 {
                ActionView::Noop
            } else {
                ActionView::NewSession { name: input }
            }
        },
        KeyCode::Char(c) => action == ActionView::Noop && only_mode_set(
            old,
            new,
            ModeView::NewSession { input: input.push(c) },
        ),
        KeyCode::Backspace => action == ActionView::Noop && only_mode_set(
            old,
            new,
            ModeView::NewSession { input: backspaced(input) },
        ),
        _ => action == ActionView::Noop && new == old,
    }
}

/// The filter text became `text` and was applied.
pub open spec fn filter_applied(old: AppState, new: AppState, text: Seq<char>) -> bool {
    &&& new.sessions == old.sessions
    &&& new.mode@ == ModeView::Filter { input: text }
    &&& super::state::filter_view(new.filtered_indices) == filter_for(old.sessions@, text)
    &&& new.selected == clamp(old.selected, new.visible_len())
}

/// A key while typing a filter: the filter follows each edit.
pub open spec fn filter_step(
    old: AppState,
    new: AppState,
    input: Seq<char>,
    code: KeyCode,
    action: ActionView,
) -> bool {
    match code {
        KeyCode::Esc => {
            &&& action == ActionView::Noop
            &&& new.sessions == old.sessions
            &&& new.mode@ == ModeView::Normal
            &&& new.filtered_indices is None
            &&& new.selected == clamp(old.selected, old.sessions@.len())
        },
        KeyCode::Enter => action == ActionView::Noop && only_mode_set(old, new, ModeView::Normal),
        KeyCode::Char(c) => action == ActionView::Noop && filter_applied(old, new, input.push(c)),
        KeyCode::Backspace => action == ActionView::Noop && filter_applied(
            old,
            new,
            backspaced(input),
        ),
        _ => action == ActionView::Noop && new == old,
    }
}

/// A key while asked to confirm a kill: `y` or `Y` confirms, any other key
/// cancels.
pub open spec fn kill_confirm_step(
    old: AppState,
    new: AppState,
    session_id: Seq<char>,
    code: KeyCode,
    action: ActionView,
) -> bool {
    &&& only_mode_set(old, new, ModeView::Normal)
    &&& action == if is_char(code, 'y') || is_char(code, 'Y') {
        ActionView::KillSession { session_id }
    } else {
        ActionView::Noop
    }
}

/// A key while typing a session's new name.
pub open spec fn rename_step(
    old: AppState,
    new: AppState,
    session_id: Seq<char>,
    current_name: Seq<char>,
    input: Seq<char>,
    code: KeyCode,
    action: ActionView,
) -> bool {
    match code {
        KeyCode::Esc => action == ActionView::Noop && only_mode_set(old, new, ModeView::Normal),
        KeyCode::Enter => {
            &&& only_mode_set(old, new, ModeView::Normal)
            &&& action == if input.len() == 0 {
                ActionView::Noop
            } else {
                ActionView::RenameSession { session_id, new_name: input }
            }
        },
        KeyCode::Char(c) => action == ActionView::Noop && only_mode_set(
            old,
            new,
            ModeView::Rename { session_id, current_name, input: input.push(c) },
        ),
        KeyCode::Backspace => action == ActionView::Noop && only_mode_set(
            old,
            new,
            ModeView::Rename { session_id, current_name, input: backspaced(input) },
        ),
        _ => action == ActionView::Noop && new == old,
    }
}

/// The transition of the picker on a key, by mode.
pub open spec fn key_step(old: AppState, new: AppState, code: KeyCode, action: ActionView) -> bool {
    match old.mode {
        Mode::Normal => normal_step(old, new, code, action),
        Mode::NewSession { input } => new_session_step(old, new, input@, code, action),
        Mode::Filter { input } => filter_step(old, new, input@, code, action),
        Mode::Help => action == ActionView::Noop && only_mode_set(old, new, ModeView::Normal),
        Mode::KillConfirm { session_id, name } => kill_confirm_step(
            old,
            new,
            session_id@,
            code,
            action,
        ),
        Mode::Rename { session_id, current_name, input } => rename_step(
            old,
            new,
            session_id@,
            current_name@,
            input@,
            code,
            action,
        ),
    }
}

/// Moving down can overflow only with a selection at `usize::MAX`.
pub open spec fn key_allowed(app: AppState, code: KeyCode) -> bool {
    (app.mode is Normal && (is_char(code, 'j') || code == KeyCode::Down)) ==> (app.visible_len()
        == 0 || app.selected < usize::MAX)
}

/// Handle a key event and return the resulting action.
pub fn handle_key(app: &mut AppState, key: KeyEvent) -> (r: Action)
    requires
        key_allowed(*old(app), key.code),
    ensures
        key_step(*old(app), *final(app), key.code, r@),
{
    match &app.mode {
        Mode::Normal => handle_normal(app, key),
        Mode::NewSession { .. } => handle_new_session(app, key),
        Mode::Filter { .. } => handle_filter(app, key),
        Mode::Help => handle_help(app, key),
        Mode::KillConfirm { .. } => handle_kill_confirm(app, key),
        Mode::Rename { .. } => handle_rename(app, key),
    }
}

fn handle_normal(app: &mut AppState, key: KeyEvent) -> (r: Action)
    requires
        old(app).mode is Normal,
        key_allowed(*old(app), key.code),
    ensures
        normal_step(*old(app), *final(app), key.code, r@),
{
    match key.code {
        KeyCode::Char('q') | KeyCode::Esc => Action::Quit,
        KeyCode::Char('j') | KeyCode::Down => {
            app.move_down();
            Action::Noop
        },
        KeyCode::Char('k') | KeyCode::Up => {
            app.move_up();
            Action::Noop
        },
        KeyCode::Enter => {
            match app.selected_entry() {
                Some(entry) => match entry.status {
                    SessionStatus::Current | SessionStatus::Dead => Action::Noop,
                    SessionStatus::Attached | SessionStatus::Detached => Action::Attach {
                        session_id: entry.meta.id.clone(),
                    },
                },
                None => Action::Noop,
            }
        },
        KeyCode::Char('n') => {
            app.mode = Mode::NewSession { input: String::new() };
            Action::Noop
        },
        KeyCode::Char('x') => {
            let chosen = match app.selected_entry() {
                Some(entry) => Some((entry.status, entry.meta.id.clone(), entry.meta.name.clone())),
                None => None,
            };
            match chosen {
                Some((status, session_id, name)) => {
                    if status == SessionStatus::Dead {
                        Action::CleanupDead { session_id }
                    } else {
                        app.mode = Mode::KillConfirm { session_id, name };
                        Action::Noop
                    }
                },
                None => Action::Noop,
            }
        },
        KeyCode::Char('r') => {
            let chosen = match app.selected_entry() {
                Some(entry) => Some((entry.status, entry.meta.id.clone(), entry.meta.name.clone())),
                None => None,
            };
            match chosen {
                Some((status, session_id, current_name)) => {
                    if status == SessionStatus::Dead {
                        Action::Noop
                    } else {
                        app.mode = Mode::Rename { session_id, current_name, input: String::new() };
                        Action::Noop
                    }
                },
                None => Action::Noop,
            }
        },
        KeyCode::Char('/') => {
            app.mode = Mode::Filter { input: String::new() };
            Action::Noop
        },
        KeyCode::Char('?') => {
            app.mode = Mode::Help;
            Action::Noop
        },
        _ => Action::Noop,
    }
}

fn handle_new_session(app: &mut AppState, key: KeyEvent) -> (r: Action)
    requires
        old(app).mode is NewSession,
    ensures
        new_session_step(*old(app), *final(app), old(app).mode->NewSession_input@, key.code, r@),
{
    let mut input = match &app.mode {
        Mode::NewSession { input } => input.clone(),
        _ => String::new(),
    };
    match key.code {
        KeyCode::Esc => {
            app.mode = Mode::Normal;
            Action::Noop
        },
        KeyCode::Enter => {
            app.mode = Mode::Normal;
            if input.as_str().is_empty() {
                Action::Noop
            } else {
                Action::NewSession { name: input }
            }
        },
        KeyCode::Char(c) => {
            input.push(c);
            app.mode = Mode::NewSession { input };
            Action::Noop
        },
        KeyCode::Backspace => {
            input.pop();
            app.mode = Mode::NewSession { input };
            Action::Noop
        },
        _ => Action::Noop,
    }
}

fn handle_filter(app: &mut AppState, key: KeyEvent) -> (r: Action)
    requires
        old(app).mode is Filter,
    ensures
        filter_step(*old(app), *final(app), old(app).mode->Filter_input@, key.code, r@),
{
    let mut input = match &app.mode {
        Mode::Filter { input } => input.clone(),
        _ => String::new(),
    };
    match key.code {
        KeyCode::Esc => {
            app.clear_filter();
            app.mode = Mode::Normal;
            Action::Noop
        },
        KeyCode::Enter => {
            app.mode = Mode::Normal;
            Action::Noop
        },
        KeyCode::Char(c) => {
            input.push(c);
            let text = input.clone();
            app.mode = Mode::Filter { input };
            app.apply_filter(text.as_str());
            Action::Noop
        },
        KeyCode::Backspace => {
            input.pop();
            let text = input.clone();
            app.mode = Mode::Filter { input };
            app.apply_filter(text.as_str());
            Action::Noop
        },
        _ => Action::Noop,
    }
}

fn handle_help(app: &mut AppState, key: KeyEvent) -> (r: Action)
    ensures
        r@ == ActionView::Noop && only_mode_set(*old(app), *final(app), ModeView::Normal),
{
    app.mode = Mode::Normal;
    Action::Noop
}

fn handle_kill_confirm(app: &mut AppState, key: KeyEvent) -> (r: Action)
    requires
        old(app).mode is KillConfirm,
    ensures
        kill_confirm_step(
            *old(app),
            *final(app),
            old(app).mode->KillConfirm_session_id@,
            key.code,
            r@,
        ),
{
    let session_id = match &app.mode {
        Mode::KillConfirm { session_id, .. } => session_id.clone(),
        _ => String::new(),
    };
    app.mode = Mode::Normal;
    match key.code {
        KeyCode::Char('y') | KeyCode::Char('Y') => Action::KillSession { session_id },
        _ => Action::Noop,
    }
}

fn handle_rename(app: &mut AppState, key: KeyEvent) -> (r: Action)
    requires
        old(app).mode is Rename,
    ensures
        rename_step(
            *old(app),
            *final(app),
            old(app).mode->Rename_session_id@,
            old(app).mode->Rename_current_name@,
            old(app).mode->Rename_input@,
            key.code,
            r@,
        ),
{
    let (session_id, current_name, mut input) = match &app.mode {
        Mode::Rename { session_id, current_name, input } => (
            session_id.clone(),
            current_name.clone(),
            input.clone(),
        ),
        _ => (String::new(), String::new(), String::new()),
    };
    match key.code {
        KeyCode::Esc => {
            app.mode = Mode::Normal;
            Action::Noop
        },
        KeyCode::Enter => {
            app.mode = Mode::Normal;
            if input.as_str().is_empty() {
                Action::Noop
            } else {
                Action::RenameSession { session_id, new_name: input }
            }
        },
        KeyCode::Char(c) => {
            input.push(c);
            app.mode = Mode::Rename { session_id, current_name, input };
            Action::Noop
        },
        KeyCode::Backspace => {
            input.pop();
            app.mode = Mode::Rename { session_id, current_name, input };
            Action::Noop
        },
        _ => Action::Noop,
    }
}


/// Law: every key keeps the selection inside the visible list.
pub proof fn lemma_key_keeps_selection_in_range(
    old: AppState,
    new: AppState,
    code: KeyCode,
    action: ActionView,
)
    requires
        selection_in_range(old),
        key_step(old, new, code, action),
    ensures
        selection_in_range(new),
{
    lemma_clamp(old.selected, new.visible_len());
    lemma_clamp(old.selected, old.sessions@.len());
    if old.visible_len() > 0 {
        let len = old.visible_len() as int;
        assert(0 <= (old.selected + 1) % len < len) by {
            vstd::arithmetic::div_mod::lemma_mod_bound(old.selected + 1, len);
        }
    }
}

/// Law: moving down and then up comes back to the same entry.
pub proof fn lemma_down_then_up(app: AppState)
    requires
        app.selected < app.visible_len(),
        app.selected < usize::MAX,
    ensures
        selection_up(AppState { selected: selection_down(app), ..app }) == app.selected,
{
    let len = app.visible_len() as int;
    let moved = AppState { selected: selection_down(app), ..app };
    assert(moved.positions() == app.positions());
    if app.selected + 1 < len {
        vstd::arithmetic::div_mod::lemma_small_mod((app.selected + 1) as nat, len as nat);
        assert(moved.selected == app.selected + 1);
    } else {
        vstd::arithmetic::div_mod::lemma_mod_self_0(len);
        assert(moved.selected == 0);
    }
}

/// The entry under the selection, by position in the visible list.
pub open spec fn entry_under_selection(app: AppState) -> SessionEntry {
    app.sessions@[app.positions()[app.selected as int]]
}

/// The selection points at a visible entry.
pub open spec fn has_selection(app: AppState) -> bool {
    app.selected < app.visible_len()
}

/// Only the mode may differ between the two states.
pub open spec fn same_list(old: AppState, new: AppState) -> bool {
    &&& new.sessions == old.sessions
    &&& new.selected == old.selected
    &&& new.filtered_indices == old.filtered_indices
}

/// Law (normal mode, Enter): nothing changes; a selected session that is
/// attached elsewhere or detached is attached to, by its id; the current
/// session, a dead one, or no selection gives nothing to do.
pub proof fn lemma_enter_attaches(old: AppState, new: AppState, action: ActionView)
    requires
        old.mode is Normal,
        key_step(old, new, KeyCode::Enter, action),
    ensures
        new == old,
        has_selection(old) && (entry_under_selection(old).status == SessionStatus::Attached
            || entry_under_selection(old).status == SessionStatus::Detached) ==> action == (
        ActionView::Attach { session_id: entry_under_selection(old).meta.id@ }),
        !has_selection(old) || entry_under_selection(old).status == SessionStatus::Current
            || entry_under_selection(old).status == SessionStatus::Dead ==> action
            == ActionView::Noop,
{
}

/// Law (normal mode, `x`): a dead session is cleaned up at once, by its id,
/// with nothing else changed; any other selected session asks for
/// confirmation naming its id and name, changing only the mode; with no
/// selection nothing happens.
pub proof fn lemma_x_kills_or_cleans(old: AppState, new: AppState, action: ActionView)
    requires
        old.mode is Normal,
        key_step(old, new, KeyCode::Char('x'), action),
    ensures
        has_selection(old) && entry_under_selection(old).status == SessionStatus::Dead ==> new
            == old && action == (ActionView::CleanupDead {
            session_id: entry_under_selection(old).meta.id@,
        }),
        has_selection(old) && entry_under_selection(old).status != SessionStatus::Dead ==> action
            == ActionView::Noop && same_list(old, new) && new.mode@ == (ModeView::KillConfirm {
            session_id: entry_under_selection(old).meta.id@,
            name: entry_under_selection(old).meta.name@,
        }),
        !has_selection(old) ==> new == old && action == ActionView::Noop,
{
}

/// Law (normal mode, `r`): any selected session that is not dead (current,
/// attached elsewhere or detached) enters renaming with its id, its name and
/// an empty input, changing only the mode; a dead session or no selection
/// changes nothing. Either way there is nothing to do yet.
pub proof fn lemma_r_starts_rename(old: AppState, new: AppState, action: ActionView)
    requires
        old.mode is Normal,
        key_step(old, new, KeyCode::Char('r'), action),
    ensures
        action == ActionView::Noop,
        has_selection(old) && entry_under_selection(old).status != SessionStatus::Dead
            ==> same_list(old, new) && new.mode@ == (ModeView::Rename {
            session_id: entry_under_selection(old).meta.id@,
            current_name: entry_under_selection(old).meta.name@,
            input: Seq::empty(),
        }),
        !has_selection(old) || entry_under_selection(old).status == SessionStatus::Dead ==> new
            == old,
{
}

/// Law (normal mode, the other keys): `q` and Esc quit and change nothing;
/// `j`/Down and `k`/Up move the selection one entry down or up, wrapping
/// around the visible list and changing nothing else; `n`, `/` and `?` open
/// the new-session prompt, the filter prompt (both empty) and the help,
/// changing only the mode, with nothing to do; a key that is no character
/// and none of these changes nothing. (The visible list is one a program can
/// hold: no longer than `usize::MAX`.)
pub proof fn lemma_normal_keys(old: AppState, new: AppState, code: KeyCode, action: ActionView)
    requires
        old.mode is Normal,
        old.visible_len() <= usize::MAX,
        key_step(old, new, code, action),
    ensures
        code == KeyCode::Char('q') || code == KeyCode::Esc ==> action == ActionView::Quit && new
            == old,
        code == KeyCode::Char('j') || code == KeyCode::Down || code == KeyCode::Char('k') || code
            == KeyCode::Up ==> action == ActionView::Noop && new.sessions == old.sessions
            && new.mode == old.mode && new.filtered_indices == old.filtered_indices,
        (code == KeyCode::Char('j') || code == KeyCode::Down || code == KeyCode::Char('k') || code
            == KeyCode::Up) && old.visible_len() == 0 ==> new.selected == old.selected,
        (code == KeyCode::Char('j') || code == KeyCode::Down) && old.selected + 1
            < old.visible_len() ==> new.selected == old.selected + 1,
        (code == KeyCode::Char('j') || code == KeyCode::Down) && old.selected + 1
            == old.visible_len() ==> new.selected == 0,
        (code == KeyCode::Char('k') || code == KeyCode::Up) && old.visible_len() > 0
            && old.selected > 0 ==> new.selected == old.selected - 1,
        (code == KeyCode::Char('k') || code == KeyCode::Up) && old.visible_len() > 0
            && old.selected == 0 ==> new.selected == old.visible_len() - 1,
        code == KeyCode::Char('n') ==> action == ActionView::Noop && same_list(old, new)
            && new.mode@ == (ModeView::NewSession { input: Seq::empty() }),
        code == KeyCode::Char('/') ==> action == ActionView::Noop && same_list(old, new)
            && new.mode@ == (ModeView::Filter { input: Seq::empty() }),
        code == KeyCode::Char('?') ==> action == ActionView::Noop && same_list(old, new)
            && new.mode@ == ModeView::Help,
        !(code is Char) && code != KeyCode::Esc && code != KeyCode::Down && code != KeyCode::Up
            && code != KeyCode::Enter ==> action == ActionView::Noop && new == old,
{
    if old.visible_len() > 0 && (code == KeyCode::Char('j') || code == KeyCode::Down) {
        let len = old.visible_len() as int;
        if old.selected + 1 < len {
            vstd::arithmetic::div_mod::lemma_small_mod((old.selected + 1) as nat, len as nat);
        } else if old.selected + 1 == len {
            vstd::arithmetic::div_mod::lemma_mod_self_0(len);
        }
    }
}

/// Law (typing a new session's name, `input`): a character is appended and
/// Backspace removes the last one (if any); Esc goes back to normal mode
/// with nothing to do; Enter goes back to normal mode and creates a session
/// named `input` unless it is empty; other keys change nothing. The list,
/// selection and filter never change.
pub proof fn lemma_new_session_keys(
    old: AppState,
    new: AppState,
    input: Seq<char>,
    c: char,
    code: KeyCode,
    action: ActionView,
)
    requires
        old.mode@ == (ModeView::NewSession { input }),
        key_step(old, new, code, action),
    ensures
        same_list(old, new),
        code == KeyCode::Char(c) ==> action == ActionView::Noop && new.mode@ == (
        ModeView::NewSession { input: input + seq![c] }),
        code == KeyCode::Backspace && input.len() > 0 ==> action == ActionView::Noop && new.mode@
            == (ModeView::NewSession { input: input.subrange(0, input.len() - 1) }),
        code == KeyCode::Backspace && input.len() == 0 ==> action == ActionView::Noop && new.mode@
            == old.mode@,
        code == KeyCode::Esc ==> action == ActionView::Noop && new.mode@ == ModeView::Normal,
        code == KeyCode::Enter ==> new.mode@ == ModeView::Normal,
        code == KeyCode::Enter && input.len() == 0 ==> action == ActionView::Noop,
        code == KeyCode::Enter && input.len() > 0 ==> action == (ActionView::NewSession {
            name: input,
        }),
        !(code is Char) && code != KeyCode::Backspace && code != KeyCode::Esc && code
            != KeyCode::Enter ==> action == ActionView::Noop && new == old,
{
    assert(input.push(c) =~= input + seq![c]);
    if input.len() == 0 {
        assert(input =~= Seq::<char>::empty());
    }
}

/// Law (typing a filter, `input`): each character or Backspace edits the
/// text and re-filters the same list with it, keeping the selection inside
/// what is visible; Enter goes back to normal mode keeping the filter and
/// selection as they are; Esc goes back to normal mode showing every
/// session, the selection kept inside the full list. There is never
/// anything to do.
pub proof fn lemma_filter_keys(
    old: AppState,
    new: AppState,
    input: Seq<char>,
    c: char,
    code: KeyCode,
    action: ActionView,
)
    requires
        old.mode@ == (ModeView::Filter { input }),
        key_step(old, new, code, action),
    ensures
        action == ActionView::Noop,
        new.sessions == old.sessions,
        code == KeyCode::Char(c) ==> new.mode@ == (ModeView::Filter { input: input + seq![c] }),
        code == KeyCode::Char(c) ==> super::state::filter_view(new.filtered_indices) == filter_for(
            old.sessions@,
            input + seq![c],
        ),
        code == KeyCode::Backspace && input.len() > 0 ==> new.mode@ == (ModeView::Filter {
            input: input.subrange(0, input.len() - 1),
        }),
        code == KeyCode::Backspace && input.len() > 0 ==> super::state::filter_view(
            new.filtered_indices,
        ) == filter_for(old.sessions@, input.subrange(0, input.len() - 1)),
        (code is Char || code == KeyCode::Backspace) && new.visible_len() > 0 && old.selected
            >= new.visible_len() ==> new.selected == new.visible_len() - 1,
        (code is Char || code == KeyCode::Backspace) && old.selected < new.visible_len()
            ==> new.selected == old.selected,
        code == KeyCode::Enter ==> new.mode@ == ModeView::Normal && new.filtered_indices
            == old.filtered_indices && new.selected == old.selected,
        code == KeyCode::Esc ==> new.mode@ == ModeView::Normal && new.filtered_indices
            == Option::<Vec<usize>>::None,
        code == KeyCode::Esc && old.sessions@.len() > 0 && old.selected >= old.sessions@.len()
            ==> new.selected == old.sessions@.len() - 1,
        code == KeyCode::Esc && old.selected < old.sessions@.len() ==> new.selected
            == old.selected,
{
    assert(input.push(c) =~= input + seq![c]);
    if code == KeyCode::Esc {
        assert(new.filtered_indices is None);
    }
}

/// Law (asked to confirm a kill): `y` or `Y` kills the session being
/// confirmed, by its id; any other key cancels. Either way the picker goes
/// back to normal mode with its list, selection and filter unchanged.
pub proof fn lemma_kill_confirm_keys(
    old: AppState,
    new: AppState,
    session_id: Seq<char>,
    name: Seq<char>,
    code: KeyCode,
    action: ActionView,
)
    requires
        old.mode@ == (ModeView::KillConfirm { session_id, name }),
        key_step(old, new, code, action),
    ensures
        new.mode@ == ModeView::Normal,
        same_list(old, new),
        code == KeyCode::Char('y') || code == KeyCode::Char('Y') ==> action == (
        ActionView::KillSession { session_id }),
        code != KeyCode::Char('y') && code != KeyCode::Char('Y') ==> action == ActionView::Noop,
{
}

/// Law (help shown): any key closes it, changing only the mode.
pub proof fn lemma_help_keys(old: AppState, new: AppState, code: KeyCode, action: ActionView)
    requires
        old.mode is Help,
        key_step(old, new, code, action),
    ensures
        action == ActionView::Noop,
        new.mode@ == ModeView::Normal,
        same_list(old, new),
{
}

/// Law (typing a new name for session `session_id`, currently
/// `current_name`): a character is appended and Backspace removes the last
/// one (if any), keeping the session and its current name; Esc goes back to
/// normal mode with nothing to do; Enter goes back to normal mode and renames
/// the session to `input` unless it is empty; other keys change nothing. The
/// list, selection and filter never change.
pub proof fn lemma_rename_keys(
    old: AppState,
    new: AppState,
    session_id: Seq<char>,
    current_name: Seq<char>,
    input: Seq<char>,
    c: char,
    code: KeyCode,
    action: ActionView,
)
    requires
        old.mode@ == (ModeView::Rename { session_id, current_name, input }),
        key_step(old, new, code, action),
    ensures
        same_list(old, new),
        code == KeyCode::Char(c) ==> action == ActionView::Noop && new.mode@ == (ModeView::Rename {
            session_id,
            current_name,
            input: input + seq![c],
        }),
        code == KeyCode::Backspace && input.len() > 0 ==> action == ActionView::Noop && new.mode@
            == (ModeView::Rename {
            session_id,
            current_name,
            input: input.subrange(0, input.len() - 1),
        }),
        code == KeyCode::Backspace && input.len() == 0 ==> action == ActionView::Noop && new.mode@
            == old.mode@,
        code == KeyCode::Esc ==> action == ActionView::Noop && new.mode@ == ModeView::Normal,
        code == KeyCode::Enter ==> new.mode@ == ModeView::Normal,
        code == KeyCode::Enter && input.len() == 0 ==> action == ActionView::Noop,
        code == KeyCode::Enter && input.len() > 0 ==> action == (ActionView::RenameSession {
            session_id,
            new_name: input,
        }),
        !(code is Char) && code != KeyCode::Backspace && code != KeyCode::Esc && code
            != KeyCode::Enter ==> action == ActionView::Noop && new == old,
{
    assert(input.push(c) =~= input + seq![c]);
    if input.len() == 0 {
        assert(input =~= Seq::<char>::empty());
    }
}

} // verus!
