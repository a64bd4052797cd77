//! The session picker's state: the listed sessions, the selection, the
//! filter and the interaction mode.

use vstd::prelude::*;
use crate::session::SessionMeta;
use crate::text::{chars_eq, chars_of, contains_chars, contains_seq, lowercase, to_lowercase};

verus! {

/// Picker interaction modes.
#[derive(Debug, Clone, PartialEq)]
pub enum Mode {
    Normal,
    NewSession { input: String },
    Filter { input: String },
    Help,
    KillConfirm { session_id: String, name: String },
    Rename { session_id: String, current_name: String, input: String },
}

/// A mode with its text fields taken by their characters.
pub ghost enum ModeView {
    Normal,
    NewSession { input: Seq<char> },
    Filter { input: Seq<char> },
    Help,
    KillConfirm { session_id: Seq<char>, name: Seq<char> },
    Rename { session_id: Seq<char>, current_name: Seq<char>, input: Seq<char> },
}

impl View for Mode {
    type V = ModeView;

    open spec fn view(&self) -> ModeView {
        match self {
            Mode::Normal => ModeView::Normal,
            Mode::NewSession { input } => ModeView::NewSession { input: input@ },
            Mode::Filter { input } => ModeView::Filter { input: input@ },
            Mode::Help => ModeView::Help,
            Mode::KillConfirm { session_id, name } => ModeView::KillConfirm {
                session_id: session_id@,
                name: name@,
            },
            Mode::Rename { session_id, current_name, input } => ModeView::Rename {
                session_id: session_id@,
                current_name: current_name@,
                input: input@,
            },
        }
    }
}

/// Session status as displayed in the picker.
#[derive(Debug, Clone, Copy, PartialEq, Eq, Structural)]
pub enum SessionStatus {
    Current,
    Attached,
    Detached,
    Dead,
}

/// A session entry displayed in the picker.
#[derive(Debug)]
pub struct SessionEntry {
    pub meta: SessionMeta,
    pub status: SessionStatus,
}

impl Clone for SessionEntry {
    fn clone(&self) -> (r: Self)
        ensures
            r == *self,
    {
        SessionEntry { meta: self.meta.clone(), status: self.status }
    }
}

/// Picker state.
pub struct AppState {
    pub sessions: Vec<SessionEntry>,
    pub selected: usize,
    pub mode: Mode,
    pub filtered_indices: Option<Vec<usize>>,
}

/// Action to be performed after handling an event.
#[derive(Debug, Clone, PartialEq)]
pub enum Action {
    /// Nothing to do.
    Noop,
    Quit,
    Attach { session_id: String },
    NewSession { name: String },
    KillSession { session_id: String },
    CleanupDead { session_id: String },
    RenameSession { session_id: String, new_name: String },
}

/// An action with its text fields taken by their characters.
pub ghost enum ActionView {
    Noop,
    Quit,
    Attach { session_id: Seq<char> },
    NewSession { name: Seq<char> },
    KillSession { session_id: Seq<char> },
    CleanupDead { session_id: Seq<char> },
    RenameSession { session_id: Seq<char>, new_name: Seq<char> },
}

impl View for Action {
    type V = ActionView;

    open spec fn view(&self) -> ActionView {
        match self {
            Action::Noop => ActionView::Noop,
            Action::Quit => ActionView::Quit,
            Action::Attach { session_id } => ActionView::Attach { session_id: session_id@ },
            Action::NewSession { name } => ActionView::NewSession { name: name@ },
            Action::KillSession { session_id } => ActionView::KillSession {
                session_id: session_id@,
            },
            Action::CleanupDead { session_id } => ActionView::CleanupDead {
                session_id: session_id@,
            },
            Action::RenameSession { session_id, new_name } => ActionView::RenameSession {
                session_id: session_id@,
                new_name: new_name@,
            },
        }
    }
}

/// The filter as a sequence of session positions, if one is set.
pub open spec fn filter_view(f: Option<Vec<usize>>) -> Option<Seq<usize>> {
    match f {
        Some(v) => Some(v@),
        None => None,
    }
}

/// The positions named by `indices` that fall inside a list of `len`
/// sessions, in the filter's order.
pub open spec fn in_range_positions(indices: Seq<usize>, len: nat) -> Seq<int>
    decreases indices.len(),
{
    if indices.len() == 0 {
        Seq::empty()
    } else {
        let rest = in_range_positions(indices.drop_last(), len);
        if indices.last() < len {
            rest.push(indices.last() as int)
        } else {
            rest
        }
    }
}

/// The positions of the visible sessions: all of them without a filter,
/// else those the filter names that exist.
pub open spec fn visible_positions(len: nat, filter: Option<Seq<usize>>) -> Seq<int> {
    match filter {
        None => Seq::new(len, |i: int| i),
        Some(indices) => in_range_positions(indices, len),
    }
}

/// The session's name, lower-cased, holds the lower-cased filter text.
pub open spec fn name_matches(entry: SessionEntry, lower_filter: Seq<char>) -> bool {
    contains_seq(lowercase(entry.meta.name@), lower_filter)
}

/// The positions of the sessions whose lower-cased name holds `lower_filter`.
pub open spec fn matching_positions(sessions: Seq<SessionEntry>, lower_filter: Seq<char>) -> Seq<
    usize,
>
    decreases sessions.len(),
{
    if sessions.len() == 0 {
        Seq::empty()
    } else {
        let rest = matching_positions(sessions.drop_last(), lower_filter);
        if name_matches(sessions.last(), lower_filter) {
            rest.push((sessions.len() - 1) as usize)
        } else {
            rest
        }
    }
}

/// The filter that the text `filter` sets: none when it is empty, else the
/// sessions whose name holds it, ignoring case.
pub open spec fn filter_for(sessions: Seq<SessionEntry>, filter: Seq<char>) -> Option<Seq<usize>> {
    if filter.len() == 0 {
        None
    } else {
        Some(matching_positions(sessions, lowercase(filter)))
    }
}

/// The selection kept inside a list of `len` visible entries: an index past
/// the end moves to the last entry; an empty list leaves it as it is.
pub open spec fn clamp(selected: usize, len: nat) -> usize {
    if len > 0 && selected >= len {
        (len - 1) as usize
    } else {
        selected
    }
}

proof fn lemma_in_range_positions_bounded(indices: Seq<usize>, len: nat)
    ensures
        forall|k: int|
            0 <= k < in_range_positions(indices, len).len() ==> 0
                <= #[trigger] in_range_positions(indices, len)[k] < len,
        in_range_positions(indices, len).len() <= indices.len(),
    decreases indices.len(),
{
    if indices.len() > 0 {
        lemma_in_range_positions_bounded(indices.drop_last(), len);
        let rest = in_range_positions(indices.drop_last(), len);
        assert forall|k: int| 0 <= k < rest.len() implies 0 <= #[trigger] rest[k] < len by {}
    }
}

proof fn lemma_matching_positions_bounded(sessions: Seq<SessionEntry>, lower: Seq<char>)
    ensures
        forall|k: int|
            0 <= k < matching_positions(sessions, lower).len() ==> #[trigger] matching_positions(
                sessions,
                lower,
            )[k] < sessions.len(),
    decreases sessions.len(),
{
    if sessions.len() > 0 {
        lemma_matching_positions_bounded(sessions.drop_last(), lower);
        let rest = matching_positions(sessions.drop_last(), lower);
        assert forall|k: int| 0 <= k < rest.len() implies #[trigger] rest[k] < sessions.len() by {}
    }
}

impl AppState {
    /// Positions of the visible sessions.
    pub open spec fn positions(&self) -> Seq<int> {
        visible_positions(self.sessions@.len(), filter_view(self.filtered_indices))
    }

    /// Number of visible sessions.
    pub open spec fn visible_len(&self) -> nat {
        self.positions().len()
    }

    /// The selected session, if the selection is inside the visible list.
    pub open spec fn selected_spec(&self) -> Option<SessionEntry> {
        if self.selected < self.visible_len() {
            Some(self.sessions@[self.positions()[self.selected as int]])
        } else {
            None
        }
    }

    /// Law: every visible position names a listed session.
    pub proof fn lemma_positions_in_range(&self)
        ensures
            forall|k: int|
                0 <= k < self.positions().len() ==> 0 <= #[trigger] self.positions()[k]
                    < self.sessions@.len(),
    {
        match self.filtered_indices {
            Some(v) => {
                lemma_in_range_positions_bounded(v@, self.sessions@.len());
            },
            None => {},
        }
    }

    pub fn new(sessions: Vec<SessionEntry>) -> (r: Self)
        ensures
            r.sessions == sessions,
            r.selected == 0,
            r.mode == Mode::Normal,
            r.filtered_indices is None,
    {
        AppState { sessions, selected: 0, mode: Mode::Normal, filtered_indices: None }
    }
}


impl AppState {
    /// Get the visible sessions (filtered or all).
    pub fn visible_sessions(&self) -> (r: Vec<&SessionEntry>)
        ensures
            r@.len() == self.visible_len(),
            forall|k: int|
                0 <= k < r@.len() ==> *#[trigger] r@[k] == self.sessions@[self.positions()[k]],
    {
        proof {
            self.lemma_positions_in_range();
        }
        let mut out: Vec<&SessionEntry> = Vec::new();
        match &self.filtered_indices {
            Some(indices) => {
                let mut i: usize = 0;
                while i < indices.len()
                    invariant
                        self.filtered_indices == Some(*indices),
                        0 <= i <= indices@.len(),
                        out@.len() == in_range_positions(indices@.take(i as int), self.sessions@.len()).len(),
                        forall|k: int|
                            0 <= k < out@.len() ==> *#[trigger] out@[k] == self.sessions@[in_range_positions(
                                indices@.take(i as int),
                                self.sessions@.len(),
                            )[k]],
                    decreases indices@.len() - i,
                {
                    proof {
                        assert(indices@.take(i + 1).drop_last() =~= indices@.take(i as int));
                    }
                    let ix = indices[i];
                    if ix < self.sessions.len() {
                        out.push(&self.sessions[ix]);
                    }
                    i = i + 1;
                }
                proof {
                    assert(indices@.take(i as int) =~= indices@);
                }
            },
            None => {
                let mut i: usize = 0;
                while i < self.sessions.len()
                    invariant
                        self.filtered_indices is None,
                        0 <= i <= self.sessions@.len(),
                        out@.len() == i,
                        forall|k: int| 0 <= k < i ==> *#[trigger] out@[k] == self.sessions@[k],
                    decreases self.sessions@.len() - i,
                {
                    out.push(&self.sessions[i]);
                    i = i + 1;
                }
            },
        }
        out
    }

    /// Number of visible sessions.
    pub fn visible_count(&self) -> (r: usize)
        ensures
            r == self.visible_len(),
    {
        self.visible_sessions().len()
    }

    /// Get the currently selected session entry.
    pub fn selected_entry(&self) -> (r: Option<&SessionEntry>)
        ensures
            match r {
                Some(e) => self.selected_spec() == Some(*e),
                None => self.selected_spec() is None,
            },
    {
        let visible = self.visible_sessions();
        if self.selected < visible.len() {
            Some(visible[self.selected])
        } else {
            None
        }
    }

    /// Move selection down, wrapping from the last entry to the first.
    pub fn move_down(&mut self)
        requires
            old(self).visible_len() == 0 || old(self).selected < usize::MAX,
        ensures
            final(self).sessions == old(self).sessions,
            final(self).mode == old(self).mode,
            final(self).filtered_indices == old(self).filtered_indices,
            final(self).selected == (if old(self).visible_len() > 0 {
                ((old(self).selected + 1) % (old(self).visible_len() as int)) as usize
            } else {
                old(self).selected
            }),
    {
        let len = self.visible_count();
        if len > 0 {
            self.selected = (self.selected + 1) % len;
        }
    }

    /// Move selection up, wrapping from the first entry to the last.
    pub fn move_up(&mut self)
        ensures
            final(self).sessions == old(self).sessions,
            final(self).mode == old(self).mode,
            final(self).filtered_indices == old(self).filtered_indices,
            final(self).selected == (if old(self).visible_len() == 0 {
                old(self).selected
            } else if old(self).selected == 0 {
                (old(self).visible_len() - 1) as usize
            } else {
                (old(self).selected - 1) as usize
            }),
    {
        let len = self.visible_count();
        if len > 0 {
            self.selected = if self.selected == 0 {
                len - 1
            } else {
                self.selected - 1
            };
        }
    }

    /// Keep the selection inside the visible list.
    fn clamp_selection(&mut self)
        ensures
            final(self).sessions == old(self).sessions,
            final(self).mode == old(self).mode,
            final(self).filtered_indices == old(self).filtered_indices,
            final(self).selected == clamp(old(self).selected, old(self).visible_len()),
    {
        let len = self.visible_count();
        if len > 0 && self.selected >= len {
            self.selected = len - 1;
        }
    }

    /// Apply a filter string to sessions: keep those whose name contains it,
    /// ignoring case; an empty string removes the filter.
    pub fn apply_filter(&mut self, filter: &str)
        ensures
            final(self).sessions == old(self).sessions,
            final(self).mode == old(self).mode,
            filter_view(final(self).filtered_indices) == filter_for(old(self).sessions@, filter@),
            final(self).selected == clamp(old(self).selected, final(self).visible_len()),
    {
        if filter.is_empty() {
            self.filtered_indices = None;
        } else {
            let lower = to_lowercase(filter);
            let needle = chars_of(lower.as_str());
            let mut indices: Vec<usize> = Vec::new();
            let mut i: usize = 0;
            while i < self.sessions.len()
                invariant
                    self.sessions == old(self).sessions,
                    needle@ == lowercase(filter@),
                    0 <= i <= self.sessions@.len(),
                    indices@ == matching_positions(self.sessions@.take(i as int), needle@),
                decreases self.sessions@.len() - i,
            {
                proof {
                    assert(self.sessions@.take(i + 1).drop_last() =~= self.sessions@.take(i as int));
                }
                let name = to_lowercase(self.sessions[i].meta.name.as_str());
                let hay = chars_of(name.as_str());
                if contains_chars(&hay, &needle) {
                    indices.push(i);
                }
                i = i + 1;
            }
            proof {
                assert(self.sessions@.take(i as int) =~= self.sessions@);
            }
            self.filtered_indices = Some(indices);
        }
        self.clamp_selection();
    }

    /// Clear the filter.
    pub fn clear_filter(&mut self)
        ensures
            final(self).sessions == old(self).sessions,
            final(self).mode == old(self).mode,
            final(self).filtered_indices is None,
            final(self).selected == clamp(old(self).selected, old(self).sessions@.len()),
    {
        self.filtered_indices = None;
        self.clamp_selection();
    }
}


/// The id of the selected session, if the selection is inside the list.
pub open spec fn selected_id(app: AppState) -> Option<Seq<char>> {
    match app.selected_spec() {
        Some(e) => Some(e.meta.id@),
        None => None,
    }
}

/// The filter after reloading: re-applied to the new list when the picker is
/// typing a filter, otherwise kept as it stands.
pub open spec fn refreshed_filter(app: AppState, sessions: Seq<SessionEntry>) -> Option<Seq<usize>> {
    match app.mode {
        Mode::Filter { input } => if app.filtered_indices is Some {
            filter_for(sessions, input@)
        } else {
            None
        },
        _ => filter_view(app.filtered_indices),
    }
}

/// The filter was re-applied on reload.
pub open spec fn refilters(app: AppState) -> bool {
    app.filtered_indices is Some && app.mode is Filter
}

/// The visible entry at `k` has id `id`, and none before it does.
pub open spec fn first_visible_with_id(
    sessions: Seq<SessionEntry>,
    positions: Seq<int>,
    id: Seq<char>,
    k: int,
) -> bool {
    &&& 0 <= k < positions.len()
    &&& sessions[positions[k]].meta.id@ == id
    &&& forall|j: int| 0 <= j < k ==> sessions[#[trigger] positions[j]].meta.id@ != id
}

/// The selection after reloading, before it is kept inside the list: the
/// position of the previously selected session if it is still visible, else
/// the previous selection (clamped when the filter was re-applied).
pub open spec fn refreshed_selection(app: AppState, sessions: Seq<SessionEntry>) -> usize {
    let filter = refreshed_filter(app, sessions);
    let positions = visible_positions(sessions.len(), filter);
    let kept = if refilters(app) {
        clamp(app.selected, positions.len())
    } else {
        app.selected
    };
    match selected_id(app) {
        Some(id) => if exists|k: int| first_visible_with_id(sessions, positions, id, k) {
            (choose|k: int| first_visible_with_id(sessions, positions, id, k)) as usize
        } else {
            kept
        },
        None => kept,
    }
}

impl AppState {
    /// Replace the listed sessions with a freshly collected list, re-applying
    /// a filter being typed and keeping the selected session selected.
    pub fn refresh(&mut self, sessions: Vec<SessionEntry>)
        ensures
            final(self).sessions == sessions,
            final(self).mode == old(self).mode,
            filter_view(final(self).filtered_indices) == refreshed_filter(*old(self), sessions@),
            final(self).selected == clamp(
                refreshed_selection(*old(self), sessions@),
                final(self).visible_len(),
            ),
    {
        let ghost old_app = *self;
        let old_id: Option<String> = match self.selected_entry() {
            Some(e) => Some(e.meta.id.clone()),
            None => None,
        };
        self.sessions = sessions;
        if self.filtered_indices.is_some() {
            let text: Option<String> = match &self.mode {
                Mode::Filter { input } => Some(input.clone()),
                _ => None,
            };
            match text {
                Some(f) => {
                    self.apply_filter(f.as_str());
                },
                None => {},
            }
        }
        let ghost kept = self.selected;
        assert(filter_view(self.filtered_indices) == refreshed_filter(old_app, sessions@));
        match old_id {
            Some(id) => {
                let wanted = chars_of(id.as_str());
                let visible = self.visible_sessions();
                let ghost positions = self.positions();
                let mut found: Option<usize> = None;
                let mut k: usize = 0;
                while found.is_none() && k < visible.len()
                    invariant
                        wanted@ == id@,
                        visible@.len() == positions.len(),
                        forall|m: int|
                            0 <= m < visible@.len() ==> *#[trigger] visible@[m]
                                == self.sessions@[positions[m]],
                        0 <= k <= visible@.len(),
                        match found {
                            Some(f) => first_visible_with_id(self.sessions@, positions, id@, f as int),
                            None => forall|j: int|
                                0 <= j < k ==> self.sessions@[#[trigger] positions[j]].meta.id@ != id@,
                        },
                    decreases visible@.len() - k + (if found is None { 1int } else { 0 }),
                {
                    let candidate = chars_of(visible[k].meta.id.as_str());
                    if chars_eq(&candidate, &wanted) {
                        found = Some(k);
                    } else {
                        k = k + 1;
                    }
                }
                proof {
                    let sessions_now = self.sessions@;
                    match found {
                        Some(f) => {
                            let c = choose|c: int| first_visible_with_id(sessions_now, positions, id@, c);
                            if c < f {
                                assert(sessions_now[positions[c]].meta.id@ != id@);
                            }
                            if f < c {
                                assert(sessions_now[positions[f as int]].meta.id@ != id@);
                            }
                        },
                        None => {
                            assert(!exists|c: int| first_visible_with_id(sessions_now, positions, id@, c));
                        },
                    }
                }
                match found {
                    Some(pos) => {
                        self.selected = pos;
                    },
                    None => {},
                }
            },
            None => {},
        }
        self.clamp_selection();
    }
}


/// The selection is inside the visible list (or the list is empty).
pub open spec fn selection_in_range(app: AppState) -> bool {
    app.visible_len() == 0 || app.selected < app.visible_len()
}

/// Law: keeping a selection inside a non-empty list lands inside it, and
/// leaves a selection already inside unchanged.
pub proof fn lemma_clamp(selected: usize, len: nat)
    ensures
        len > 0 ==> clamp(selected, len) < len,
        selected < len ==> clamp(selected, len) == selected,
{
}

/// Law: after a reload the selection is inside the visible list.
pub proof fn lemma_refresh_selection_in_range(old: AppState, new: AppState, sessions: Seq<SessionEntry>)
    requires
        new.selected == clamp(refreshed_selection(old, sessions), new.visible_len()),
    ensures
        selection_in_range(new),
{
}

proof fn lemma_first_visible_exists(
    sessions: Seq<SessionEntry>,
    positions: Seq<int>,
    id: Seq<char>,
    k: int,
)
    requires
        0 <= k < positions.len(),
        sessions[positions[k]].meta.id@ == id,
    ensures
        exists|f: int| first_visible_with_id(sessions, positions, id, f),
    decreases k,
{
    if exists|j: int| 0 <= j < k && sessions[#[trigger] positions[j]].meta.id@ == id {
        let j = choose|j: int| 0 <= j < k && sessions[#[trigger] positions[j]].meta.id@ == id;
        lemma_first_visible_exists(sessions, positions, id, j);
    } else {
        assert(first_visible_with_id(sessions, positions, id, k));
    }
}

/// Law: a reload follows the selected session by its id. When the session
/// that was selected is still visible after the reload (some visible entry
/// has its id, whatever its name now is), the selection is the first visible
/// entry with that id. (The visible list is one a program can hold: no
/// longer than `usize::MAX`.)
pub proof fn lemma_refresh_follows_selected_id(
    old: AppState,
    new: AppState,
    sessions: Seq<SessionEntry>,
)
    requires
        new.sessions@ == sessions,
        filter_view(new.filtered_indices) == refreshed_filter(old, sessions),
        new.selected == clamp(refreshed_selection(old, sessions), new.visible_len()),
        new.visible_len() <= usize::MAX,
        old.selected < old.visible_len(),
        exists|k: int|
            0 <= k < new.visible_len() && sessions[#[trigger] new.positions()[k]].meta.id@
                == old.sessions@[old.positions()[old.selected as int]].meta.id@,
    ensures
        new.selected < new.visible_len(),
        sessions[new.positions()[new.selected as int]].meta.id@
            == old.sessions@[old.positions()[old.selected as int]].meta.id@,
        forall|j: int|
            0 <= j < new.selected ==> sessions[#[trigger] new.positions()[j]].meta.id@
                != old.sessions@[old.positions()[old.selected as int]].meta.id@,
{
    let id = old.sessions@[old.positions()[old.selected as int]].meta.id@;
    let positions = visible_positions(sessions.len(), refreshed_filter(old, sessions));
    assert(new.positions() == positions);
    assert(selected_id(old) == Some(id));
    let k = choose|k: int|
        0 <= k < new.visible_len() && sessions[#[trigger] new.positions()[k]].meta.id@ == id;
    lemma_first_visible_exists(sessions, positions, id, k);
    let f = choose|f: int| first_visible_with_id(sessions, positions, id, f);
    assert(first_visible_with_id(sessions, positions, id, f));
    assert(refreshed_selection(old, sessions) == f as usize);
    lemma_clamp(f as usize, new.visible_len());
    assert(new.selected as int == f);
    assert(sessions[positions[f]].meta.id@ == id);
}

proof fn lemma_matching_positions_exact(sessions: Seq<SessionEntry>, lower: Seq<char>)
    requires
        sessions.len() <= usize::MAX,
    ensures
        forall|k: int|
            0 <= k < matching_positions(sessions, lower).len() ==> {
                let p = #[trigger] matching_positions(sessions, lower)[k];
                p < sessions.len() && name_matches(sessions[p as int], lower)
            },
        forall|i: int|
            0 <= i < sessions.len() && name_matches(#[trigger] sessions[i], lower) ==> exists|k: int|
                0 <= k < matching_positions(sessions, lower).len() && matching_positions(
                    sessions,
                    lower,
                )[k] == i,
        forall|k1: int, k2: int|
            0 <= k1 < k2 < matching_positions(sessions, lower).len() ==> matching_positions(
                sessions,
                lower,
            )[k1] < matching_positions(sessions, lower)[k2],
    decreases sessions.len(),
{
    if sessions.len() > 0 {
        let init = sessions.drop_last();
        lemma_matching_positions_exact(init, lower);
        let rest = matching_positions(init, lower);
        let all = matching_positions(sessions, lower);
        assert forall|k: int| 0 <= k < rest.len() implies rest[k] < init.len() by {}
        assert forall|k: int| 0 <= k < all.len() implies {
            let p = #[trigger] all[k];
            p < sessions.len() && name_matches(sessions[p as int], lower)
        } by {
            if k < rest.len() {
                assert(all[k] == rest[k]);
                assert(sessions[rest[k] as int] == init[rest[k] as int]);
            } else {
                assert(name_matches(sessions.last(), lower));
                assert(all[k] == (sessions.len() - 1) as usize);
            }
        }
        assert forall|i: int|
            0 <= i < sessions.len() && name_matches(#[trigger] sessions[i], lower) implies exists|
                k: int,
            | 0 <= k < all.len() && all[k] == i by {
            if i < init.len() {
                assert(init[i] == sessions[i]);
                let k = choose|k: int| 0 <= k < rest.len() && rest[k] == i;
                assert(all[k] == rest[k]);
            } else {
                assert(sessions.last() == sessions[i]);
                assert(all == rest.push((sessions.len() - 1) as usize));
                assert(all[rest.len() as int] == i);
            }
        }
        assert forall|k1: int, k2: int| 0 <= k1 < k2 < all.len() implies all[k1] < all[k2] by {
            if k2 < rest.len() {
                assert(all[k1] == rest[k1] && all[k2] == rest[k2]);
            } else {
                assert(all[k1] == rest[k1]);
            }
        }
    }
}

proof fn lemma_in_range_positions_all(indices: Seq<usize>, len: nat)
    requires
        forall|k: int| 0 <= k < indices.len() ==> #[trigger] indices[k] < len,
    ensures
        in_range_positions(indices, len) == indices.map_values(|p: usize| p as int),
    decreases indices.len(),
{
    if indices.len() > 0 {
        lemma_in_range_positions_all(indices.drop_last(), len);
        assert(in_range_positions(indices, len) =~= indices.map_values(|p: usize| p as int));
    } else {
        assert(in_range_positions(indices, len) =~= indices.map_values(|p: usize| p as int));
    }
}

/// `needle` occurs in `hay` as a contiguous run starting at `p`.
pub open spec fn occurs_at(hay: Seq<char>, needle: Seq<char>, p: int) -> bool {
    0 <= p && p + needle.len() <= hay.len() && hay.subrange(p, p + needle.len()) == needle
}

/// Law: with a filter set from a non-empty text, a session is visible
/// exactly when the lower-cased text occurs somewhere in its lower-cased
/// name, at any position.
pub proof fn lemma_filter_is_substring_match(app: AppState, filter: Seq<char>)
    requires
        app.sessions@.len() <= usize::MAX,
        filter.len() > 0,
        filter_view(app.filtered_indices) == filter_for(app.sessions@, filter),
    ensures
        forall|i: int|
            0 <= i < app.sessions@.len() ==> ((exists|k: int|
                0 <= k < app.visible_len() && app.positions()[k] == i) <==> (exists|p: int|
                occurs_at(
                    lowercase(#[trigger] app.sessions@[i].meta.name@),
                    lowercase(filter),
                    p,
                ))),
{
    let lower = lowercase(filter);
    lemma_filter_shows_matching(app, filter);
    assert forall|i: int| 0 <= i < app.sessions@.len() implies ((exists|k: int|
        0 <= k < app.visible_len() && app.positions()[k] == i) <==> (exists|p: int|
        occurs_at(lowercase(#[trigger] app.sessions@[i].meta.name@), lower, p))) by {
        let e = app.sessions@[i];
        let hay = lowercase(e.meta.name@);
        if exists|p: int| occurs_at(hay, lower, p) {
            let p = choose|p: int| occurs_at(hay, lower, p);
            assert(hay.subrange(p, p + lower.len()) == lower);
            assert(name_matches(e, lower));
        }
        if exists|k: int| 0 <= k < app.visible_len() && app.positions()[k] == i {
            let k = choose|k: int| 0 <= k < app.visible_len() && app.positions()[k] == i;
            assert(name_matches(app.sessions@[app.positions()[k]], lower));
            let p = choose|p: int|
                0 <= p && p + lower.len() <= hay.len() && #[trigger] hay.subrange(
                    p,
                    p + lower.len(),
                ) == lower;
            assert(occurs_at(hay, lower, p));
        }
    }
}

/// Law: with a filter set from a non-empty text, the visible sessions are
/// exactly those whose lower-cased name holds the lower-cased text, in list
/// order.
pub proof fn lemma_filter_shows_matching(app: AppState, filter: Seq<char>)
    requires
        app.sessions@.len() <= usize::MAX,
        filter.len() > 0,
        filter_view(app.filtered_indices) == filter_for(app.sessions@, filter),
    ensures
        forall|k: int|
            0 <= k < app.visible_len() ==> name_matches(
                app.sessions@[#[trigger] app.positions()[k]],
                lowercase(filter),
            ),
        forall|i: int|
            0 <= i < app.sessions@.len() && name_matches(
                #[trigger] app.sessions@[i],
                lowercase(filter),
            ) ==> exists|k: int| 0 <= k < app.visible_len() && app.positions()[k] == i,
        forall|k1: int, k2: int|
            0 <= k1 < k2 < app.visible_len() ==> app.positions()[k1] < app.positions()[k2],
{
    let lower = lowercase(filter);
    let m = matching_positions(app.sessions@, lower);
    lemma_matching_positions_exact(app.sessions@, lower);
    assert forall|k: int| 0 <= k < m.len() implies #[trigger] m[k] < app.sessions@.len() by {}
    lemma_in_range_positions_all(m, app.sessions@.len());
    assert(app.positions() == m.map_values(|p: usize| p as int));
    assert forall|i: int|
        0 <= i < app.sessions@.len() && name_matches(#[trigger] app.sessions@[i], lower) implies exists|
            k: int,
        | 0 <= k < app.visible_len() && app.positions()[k] == i by {
        let k = choose|k: int| 0 <= k < m.len() && m[k] == i;
        assert(app.positions()[k] == i);
    }
}

} // verus!
