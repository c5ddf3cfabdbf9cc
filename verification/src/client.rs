//! The calls that the Komodo client makes for terminals: where
//! `execute_terminal` is sent, and its body for server and container
//! terminals.
use vstd::prelude::*;

use crate::requests::{ExecuteTerminalBody, InitTerminal, TerminalTarget};

verus! {

/// The address of Komodo Core's `execute_terminal` endpoint.
pub fn terminal_execute_url(address: &str) -> (r: String)
    ensures
        r@ == address@ + "/terminal/execute"@,
{
    let mut s = String::from_str(address);
    s.append("/terminal/execute");
    s
}

/// The `execute_terminal` body for a command on a server's terminal.
pub fn server_terminal_body(
    server: String,
    terminal: Option<String>,
    command: String,
    init: Option<InitTerminal>,
) -> (r: ExecuteTerminalBody)
    ensures
        r.target == (TerminalTarget::Server { server: Some(server) }),
        r.terminal == terminal,
        r.command == command,
        r.init == init,
{
    ExecuteTerminalBody {
        target: TerminalTarget::Server { server: Some(server) },
        terminal,
        command,
        init,
    }
}

/// The `execute_terminal` body for a command in a container's terminal.
pub fn container_terminal_body(
    server: String,
    container: String,
    terminal: Option<String>,
    command: String,
    init: Option<InitTerminal>,
) -> (r: ExecuteTerminalBody)
    ensures
        r.target == (TerminalTarget::Container { server, container }),
        r.terminal == terminal,
        r.command == command,
        r.init == init,
{
    ExecuteTerminalBody {
        target: TerminalTarget::Container { server, container },
        terminal,
        command,
        init,
    }
}

} // verus!
