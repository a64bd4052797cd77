//! `latch attach`: what the client does with each message from the server.

use vstd::prelude::*;
use crate::server::protocol::ServerMessage;

verus! {

/// What the attached client does with a server message.
#[derive(Debug, Clone, PartialEq)]
pub enum ClientStep {
    /// Write the bytes to the terminal.
    Print { data: Vec<u8> },
    /// Nothing to do.
    Ignore,
    /// The session ended (or the connection was lost): stop relaying.
    Finish,
}

/// The history to replay from the server's first message, if it is one.
pub fn history_replay(msg: ServerMessage) -> (r: Option<Vec<u8>>)
    ensures
        match msg {
            ServerMessage::History { data } => r == Some(data),
            _ => r is None,
        },
{
    match msg {
        ServerMessage::History { data } => Some(data),
        _ => None,
    }
}

/// The step for the server's next message (`None` when it could not be
/// read). A second history is ignored.
pub fn server_step(msg: Option<ServerMessage>) -> (r: ClientStep)
    ensures
        match msg {
            Some(ServerMessage::Output { data }) => r == ClientStep::Print { data },
            Some(ServerMessage::History { .. }) => r == ClientStep::Ignore,
            Some(ServerMessage::SessionDead) | None => r == ClientStep::Finish,
        },
{
    match msg {
        Some(ServerMessage::Output { data }) => ClientStep::Print { data },
        Some(ServerMessage::History { .. }) => ClientStep::Ignore,
        Some(ServerMessage::SessionDead) | None => ClientStep::Finish,
    }
}

} // verus!
