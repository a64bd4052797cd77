//! The decisions behind the command-line subcommands.

pub mod attach;
pub mod detach;
pub mod kill;
pub mod list;
pub mod new;
pub mod rename;
