//! Terminal session management: persistent scrollback history, the wire
//! framing between session servers and clients, and the interactive picker's
//! state machine.

pub mod cli;
pub mod commands;
pub mod listing;
pub mod server;
pub mod session;
pub mod text;
pub mod tui;
