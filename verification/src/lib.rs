//! Core of a terminal multiplexer backend: session identity, the registry of
//! live sessions, and the decisions taken around the pseudo-terminal I/O that
//! the host performs.

pub mod command;
pub mod error;
pub mod events;
pub mod forward;
pub mod geometry;
pub mod history;
pub mod ident;
pub mod job;
pub mod manager;
pub mod operation;
pub mod session;
pub mod text;
