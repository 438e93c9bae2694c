//! Core of an interactive command-line shell: tokenizing input lines,
//! dispatching built-in commands, tracking the foreground child process,
//! and formatting directory listings. All I/O stays with the caller; the
//! functions here work on plain values and carry proved contracts.

pub mod dispatch;
pub mod listing;
pub mod platform;
pub mod prompt;
pub mod repl;
pub mod textfmt;
pub mod tokenize;
