//! Control of a background media player over a local socket: the wire
//! encoding of commands, the session lifecycle, the decoding of replies, and
//! the rules of the playlists and of the command line around them.
//!
//! The library computes and decides. Whatever touches the socket, the
//! filesystem or a process is left to the caller, who hands in what was read
//! and carries out what comes back.

pub mod cli;
pub mod command;
pub mod config;
pub mod escape;
pub mod lines;
pub mod path;
pub mod playlist;
pub mod queue;
pub mod selector;
pub mod session;
pub mod startup;
pub mod text;
