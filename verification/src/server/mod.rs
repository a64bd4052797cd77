//! The session server's decisions for each connected client.

pub mod protocol;

use vstd::prelude::*;
use protocol::ClientMessage;

verus! {

/// Rows of the terminal a session starts with.
pub const INITIAL_ROWS: u16 = 24;

/// Columns of the terminal a session starts with.
pub const INITIAL_COLS: u16 = 80;

/// What the server does with a client's message once it is attached.
#[derive(Debug, Clone, PartialEq)]
pub enum ServerStep {
    /// Write the bytes to the session's terminal.
    WriteInput { data: Vec<u8> },
    /// Resize the session's terminal.
    Resize { cols: u16, rows: u16 },
    /// Nothing to do.
    Ignore,
    /// The client has gone: stop serving it.
    Disconnect,
}

/// A connection is served only if its first message is `Attach`.
pub fn accepts_first_message(msg: &ClientMessage) -> (r: bool)
    ensures
        r == (*msg is Attach),
{
    match msg {
        ClientMessage::Attach => true,
        _ => false,
    }
}

/// The step for an attached client's next message (`None` when it could not
/// be read: the client disconnected). A repeated `Attach` is ignored.
pub fn client_step(msg: Option<ClientMessage>) -> (r: ServerStep)
    ensures
        match msg {
            Some(ClientMessage::Input { data }) => r == ServerStep::WriteInput { data },
            Some(ClientMessage::Resize { cols, rows }) => r == ServerStep::Resize { cols, rows },
            Some(ClientMessage::Attach) => r == ServerStep::Ignore,
            Some(ClientMessage::Detach) | None => r == ServerStep::Disconnect,
        },
{
    match msg {
        Some(ClientMessage::Input { data }) => ServerStep::WriteInput { data },
        Some(ClientMessage::Resize { cols, rows }) => ServerStep::Resize { cols, rows },
        Some(ClientMessage::Attach) => ServerStep::Ignore,
        Some(ClientMessage::Detach) | None => ServerStep::Disconnect,
    }
}

/// After a client leaves, the session counts as detached when at most one
/// subscriber to its output remains (the server's own).
pub fn detached_after_leave(receiver_count: usize) -> (r: bool)
    ensures
        r == (receiver_count <= 1),
{
    receiver_count <= 1
}

} // verus!
