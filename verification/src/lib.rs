//! Verified core of a RIME-based Chinese input front end: key parsing,
//! the stdio and TUI input protocols, shell prompt handling and the data
//! model of the input engine's session state.

pub mod dirs;
pub mod engine;
pub mod keys;
pub mod oneshot;
pub mod prompt;
pub mod shell;
pub mod stdio;
pub mod text;
pub mod tui;
