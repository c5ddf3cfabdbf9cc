//! The logic of the Komodo command-line client (`km`): naming temporary
//! terminals, reading the exit-code marker out of terminal output, deciding
//! when to retry a container command under `sh`, and the plans that the
//! terminal commands send to Komodo Core.
pub mod decimal;
pub mod text;
pub mod search;
pub mod marker;
pub mod terminal;
pub mod shell_stream;
pub mod args;
pub mod requests;
pub mod shell;
pub mod session;
pub mod client;
pub mod views;
pub mod diff;
