//! `latch detach`: which session to detach from.

use vstd::prelude::*;
use crate::text::push_str;

verus! {

/// Why no session could be chosen.
#[derive(Debug, Clone, Copy, PartialEq, Eq, Structural)]
pub enum DetachError {
    /// No argument, and `$LATCH_SESSION` unset or empty.
    NotInSession,
}

impl DetachError {
    /// The error's text.
    pub fn message(&self) -> (r: String)
        ensures
            r@ == "error: not in a latch session (LATCH_SESSION not set)"@,
    {
        let mut out = String::new();
        push_str(&mut out, "error: not in a latch session (LATCH_SESSION not set)");
        out
    }
}

/// Resolve the target session for detach: the argument if given, else the
/// value of `$LATCH_SESSION` (`env_session`) when set and not empty.
pub fn resolve_detach_target(session: Option<String>, env_session: Option<String>) -> (r: Result<
    String,
    DetachError,
>)
    ensures
        match session {
            Some(s) => r == Ok::<String, DetachError>(s),
            None => match env_session {
                Some(e) => if e@.len() > 0 {
                    r == Ok::<String, DetachError>(e)
                } else {
                    r == Err::<String, DetachError>(DetachError::NotInSession)
                },
                None => r == Err::<String, DetachError>(DetachError::NotInSession),
            },
        },
{
    if let Some(s) = session {
        return Ok(s);
    }
    match env_session {
        Some(e) => {
            if !e.as_str().is_empty() {
                Ok(e)
            } else {
                Err(DetachError::NotInSession)
            }
        },
        None => Err(DetachError::NotInSession),
    }
}

} // verus!
