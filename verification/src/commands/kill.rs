//! `latch kill`: terminate gracefully, then forcibly.

use vstd::prelude::*;

verus! {

/// How long a session's server is given to exit after `SIGTERM`, in
/// milliseconds, before it is sent `SIGKILL`.
pub const GRACE_PERIOD_MS: u64 = 3000;

/// How often the server is checked while waiting, in milliseconds.
pub const POLL_INTERVAL_MS: u64 = 100;

/// The next step of a kill.
#[derive(Debug, Clone, Copy, PartialEq, Eq, Structural)]
pub enum KillStep {
    /// Nothing more to wait for: remove the session's files.
    Finished,
    /// Check again after `POLL_INTERVAL_MS`.
    Wait,
    /// Send `SIGKILL`, give it `POLL_INTERVAL_MS`, then remove the files.
    ForceKill,
}

/// Decide the next step after `SIGTERM`: stop waiting when it could not be
/// delivered or the process is gone, force the kill once the grace period
/// is over, else wait.
pub fn kill_step(term_delivered: bool, alive: bool, past_deadline: bool) -> (r: KillStep)
    ensures
        r == (if !term_delivered || !alive {
            KillStep::Finished
        } else if past_deadline {
            KillStep::ForceKill
        } else {
            KillStep::Wait
        }),
{
    if !term_delivered || !alive {
        KillStep::Finished
    } else if past_deadline {
        KillStep::ForceKill
    } else {
        KillStep::Wait
    }
}

} // verus!
