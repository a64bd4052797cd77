//! The command line: an optional subcommand; none opens the picker.

use vstd::prelude::*;

verus! {

/// Parsed command line.
#[derive(Debug, Clone, PartialEq)]
pub struct Cli {
    pub command: Option<Commands>,
}

/// Subcommands.
#[derive(Debug, Clone, PartialEq)]
pub enum Commands {
    /// Create a new session running `command` (default: `$SHELL`).
    New { name: String, command: Option<String> },
    /// Attach to an existing session.
    Attach { session: String },
    /// Detach from a session (default: `$LATCH_SESSION`).
    Detach { session: Option<String> },
    /// List all sessions.
    List,
    /// Kill a session.
    Kill { session: String },
    /// Show a session's history.
    History { session: String },
    /// Rename a session.
    Rename { session: String, new_name: String },
}

} // verus!
