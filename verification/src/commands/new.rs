//! `latch new`: the new session's name and command.

use vstd::prelude::*;

verus! {

/// The shell run when none is configured.
pub open spec fn fallback_shell() -> Seq<char> {
    "/bin/sh"@
}

/// The session's name: the one given, else its id.
pub fn session_name(name: Option<String>, id: &String) -> (r: String)
    ensures
        r@ == match name {
            Some(n) => n@,
            None => id@,
        },
{
    match name {
        Some(n) => n,
        None => id.clone(),
    }
}

/// The command the session runs: the one given, else `$SHELL` (`shell`,
/// when set), else `/bin/sh`.
pub fn session_command(command: Option<String>, shell: Option<String>) -> (r: String)
    ensures
        r@ == match command {
            Some(c) => c@,
            None => match shell {
                Some(s) => s@,
                None => fallback_shell(),
            },
        },
{
    match command {
        Some(c) => c,
        None => match shell {
            Some(s) => s,
            None => {
                let mut out = String::new();
                crate::text::push_str(&mut out, "/bin/sh");
                out
            },
        },
    }
}

} // verus!
