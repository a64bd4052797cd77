//! `latch rename`: name conflicts and the renamed metadata.

use vstd::prelude::*;
use crate::session::{resolution, resolve_error_text, resolve_session, ResolveError, SessionMeta};
use crate::text::{chars_eq, chars_of, push_str};

verus! {

/// Why a rename was refused.
#[derive(Debug, Clone, Copy, PartialEq, Eq, Structural)]
pub enum RenameError {
    /// Another session already has the new name.
    AlreadyExists,
    /// The target did not resolve to one session.
    Unresolved(ResolveError),
}

/// The text of a rename error, for the target and the new name asked for.
pub open spec fn rename_error_text(e: RenameError, target: Seq<char>, new_name: Seq<char>) -> Seq<
    char,
> {
    match e {
        RenameError::AlreadyExists => "error: session '"@ + new_name + "' already exists"@,
        RenameError::Unresolved(r) => resolve_error_text(r, target),
    }
}

impl RenameError {
    /// The error's text: the taken name, or why the target did not resolve.
    pub fn message(&self, target: &str, new_name: &str) -> (r: String)
        ensures
            r@ == rename_error_text(*self, target@, new_name@),
    {
        match self {
            RenameError::AlreadyExists => {
                let mut out = String::new();
                push_str(&mut out, "error: session '");
                push_str(&mut out, new_name);
                push_str(&mut out, "' already exists");
                out
            },
            RenameError::Unresolved(e) => e.message(target),
        }
    }
}

/// Some session is named `name`.
pub open spec fn name_taken(sessions: Seq<SessionMeta>, name: Seq<char>) -> bool {
    exists|i: int| 0 <= i < sessions.len() && (#[trigger] sessions[i]).name@ == name
}

/// Check if a session name already exists among `sessions`.
pub fn name_exists(sessions: &[SessionMeta], name: &str) -> (r: bool)
    ensures
        r == name_taken(sessions@, name@),
{
    let wanted = chars_of(name);
    let mut i: usize = 0;
    while i < sessions.len()
        invariant
            wanted@ == name@,
            0 <= i <= sessions@.len(),
            forall|j: int| 0 <= j < i ==> (#[trigger] sessions@[j]).name@ != name@,
        decreases sessions@.len() - i,
    {
        if chars_eq(&chars_of(sessions[i].name.as_str()), &wanted) {
            return true;
        }
        i = i + 1;
    }
    false
}

/// Plan `latch rename <name|id> <new-name>` over the listed sessions: refused
/// when the new name is taken, else the id of the session the target
/// resolves to.
pub fn run(sessions: &[SessionMeta], target: &str, new_name: &str) -> (r: Result<String, RenameError>)
    ensures
        match r {
            Ok(id) => !name_taken(sessions@, new_name@) && resolution(sessions@, target) is Ok
                && id@ == resolution(sessions@, target)->Ok_0.id@,
            Err(RenameError::AlreadyExists) => name_taken(sessions@, new_name@),
            Err(RenameError::Unresolved(e)) => !name_taken(sessions@, new_name@) && resolution(
                sessions@,
                target,
            ) == Err::<SessionMeta, ResolveError>(e),
        },
{
    if name_exists(sessions, new_name) {
        return Err(RenameError::AlreadyExists);
    }
    match resolve_session(sessions, target) {
        Ok((id, _meta)) => Ok(id),
        Err(e) => Err(RenameError::Unresolved(e)),
    }
}

/// The metadata with its name replaced, unless another listed session
/// already has the new name.
pub fn run_by_id(sessions: &[SessionMeta], meta: SessionMeta, new_name: &str) -> (r: Result<
    SessionMeta,
    RenameError,
>)
    ensures
        match r {
            Ok(m) => !name_taken(sessions@, new_name@) && m.name@ == new_name@ && m.id == meta.id
                && m.cmd == meta.cmd && m.pid == meta.pid && m.created_at == meta.created_at
                && m.status == meta.status,
            Err(e) => name_taken(sessions@, new_name@) && e == RenameError::AlreadyExists,
        },
{
    if name_exists(sessions, new_name) {
        return Err(RenameError::AlreadyExists);
    }
    let mut name = String::new();
    crate::text::push_str(&mut name, new_name);
    Ok(SessionMeta { name, ..meta })
}

} // verus!
