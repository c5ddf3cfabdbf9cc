//! What the terminal commands (`km ssh`, `km exec`, `km attach`) ask Komodo
//! Core for: the terminal target, the terminal's name, and how to start it.
use vstd::prelude::*;

use crate::args::{Attach, ExecContainer, ExecHost, SshContainer, SshHost};
use crate::decimal::{ascii_chars, nat_decimal, push_decimal_str};
use crate::text::push_char;

verus! {

/// What Komodo Core does with an existing terminal of the same name.
#[derive(Debug, Clone, Copy, PartialEq, Eq, Structural)]
pub enum TerminalRecreateMode {
    /// Keep it.
    Never,
    /// Always replace it.
    Always,
    /// Replace it when it was started with a different command.
    DifferentCommand,
}

/// How a container terminal is opened.
#[derive(Debug, Clone, Copy, PartialEq, Eq, Structural)]
pub enum ContainerTerminalMode {
    /// A new process in the container, as `docker exec`.
    Exec,
    /// The container's main process, as `docker attach`.
    Attach,
}

/// Where a terminal runs.
#[derive(Debug, Clone)]
#[allow(inconsistent_fields)]
pub enum TerminalTarget {
    /// On a server; `None` leaves the choice to Core.
    Server { server: Option<String> },
    /// In a container on a server.
    Container { server: String, container: String },
}

/// How to start a terminal.
#[derive(Debug, Clone)]
pub struct InitTerminal {
    /// The command that starts the terminal, if not the default.
    pub command: Option<String>,
    /// What to do with an existing terminal of the same name.
    pub recreate: TerminalRecreateMode,
    /// For container terminals: exec or attach.
    pub mode: Option<ContainerTerminalMode>,
}

/// An interactive terminal session to open.
#[derive(Debug, Clone)]
pub struct ConnectRequest {
    /// Where the terminal runs.
    pub target: TerminalTarget,
    /// How the session is named in the banner.
    pub label: String,
    /// The terminal's name.
    pub terminal: String,
    /// How to start the terminal.
    pub init: InitTerminal,
}

/// A one-shot command to run in a terminal.
#[derive(Debug, Clone)]
pub struct ExecRequest {
    /// Where the terminal runs.
    pub target: TerminalTarget,
    /// The command.
    pub command: String,
    /// The prefix of the temporary terminal's name.
    pub terminal: String,
    /// How to start the terminal.
    pub init: InitTerminal,
}

/// The body of Komodo Core's `execute_terminal` call.
#[derive(Debug, Clone)]
pub struct ExecuteTerminalBody {
    /// Where the terminal runs.
    pub target: TerminalTarget,
    /// The terminal's name.
    pub terminal: Option<String>,
    /// The command to run.
    pub command: String,
    /// How to start the terminal.
    pub init: Option<InitTerminal>,
}

/// The body of Komodo Core's `delete_terminal` call.
#[derive(Debug, Clone)]
pub struct DeleteTerminal {
    /// Where the terminal runs.
    pub target: TerminalTarget,
    /// The terminal's name.
    pub terminal: String,
}

/// A one-shot command ready to send, with the call that removes its
/// temporary terminal afterwards.
#[derive(Debug, Clone)]
pub struct ExecutionPlan {
    /// The `execute_terminal` call.
    pub execute: ExecuteTerminalBody,
    /// The `delete_terminal` call that follows it.
    pub cleanup: DeleteTerminal,
}

/// Spec equality of targets by the texts they hold.
pub open spec fn same_target(a: TerminalTarget, b: TerminalTarget) -> bool {
    match (a, b) {
        (TerminalTarget::Server { server: x }, TerminalTarget::Server { server: y }) => match (
            x,
            y,
        ) {
            (Some(p), Some(q)) => p@ == q@,
            (None, None) => true,
            _ => false,
        },
        (
            TerminalTarget::Container { server: s1, container: c1 },
            TerminalTarget::Container { server: s2, container: c2 },
        ) => s1@ == s2@ && c1@ == c2@,
        _ => false,
    }
}

/// The target of a server terminal on `server`.
pub open spec fn is_server_target(t: TerminalTarget, server: Seq<char>) -> bool {
    t matches TerminalTarget::Server { server: Some(s) } && s@ == server
}

/// The target of a terminal in `container` on `server`.
pub open spec fn is_container_target(t: TerminalTarget, server: Seq<char>, container: Seq<char>) -> bool {
    t matches TerminalTarget::Container { server: s, container: c } && s@ == server && c@
        == container
}

/// An optional text holds the same as another.
pub open spec fn same_option_text(a: Option<String>, b: Option<String>) -> bool {
    match (a, b) {
        (Some(x), Some(y)) => x@ == y@,
        (None, None) => true,
        _ => false,
    }
}

/// The recreate mode for the `--recreate` flag: replace the terminal always
/// when it is set, else only when its command differs.
pub open spec fn spec_recreate_mode(recreate: bool) -> TerminalRecreateMode {
    if recreate {
        TerminalRecreateMode::Always
    } else {
        TerminalRecreateMode::DifferentCommand
    }
}

/// The recreate mode for the `--recreate` flag.
pub fn recreate_mode(recreate: bool) -> (r: TerminalRecreateMode)
    ensures
        r == spec_recreate_mode(recreate),
{
    if recreate {
        TerminalRecreateMode::Always
    } else {
        TerminalRecreateMode::DifferentCommand
    }
}

/// Copies an optional string.
fn clone_option(s: &Option<String>) -> (r: Option<String>)
    ensures
        same_option_text(*s, r),
{
    match s {
        Some(x) => Some(x.clone()),
        None => None,
    }
}

/// `km ssh host`: a shell on the server, labelled with the server's name.
pub fn connect_host(host: &SshHost) -> (r: ConnectRequest)
    ensures
        is_server_target(r.target, host.server@),
        r.label@ == host.server@,
        r.terminal@ == host.terminal@,
        same_option_text(r.init.command, host.shell),
        r.init.recreate == spec_recreate_mode(host.recreate),
        r.init.mode is None,
{
    ConnectRequest {
        target: TerminalTarget::Server { server: Some(host.server.clone()) },
        label: host.server.clone(),
        terminal: host.terminal.clone(),
        init: InitTerminal {
            command: clone_option(&host.shell),
            recreate: recreate_mode(host.recreate),
            mode: None,
        },
    }
}

/// `<server>/<container>`.
fn container_label(server: &str, container: &str) -> (r: String)
    ensures
        r@ == server@ + seq!['/'] + container@,
{
    let mut s = String::from_str(server);
    push_char(&mut s, '/');
    s.append(container);
    s
}

/// `km ssh container`, once the server is known: an exec terminal running
/// the chosen shell, labelled `<server>/<container>`.
pub fn connect_container(ssh: &SshContainer, server: String) -> (r: ConnectRequest)
    ensures
        is_container_target(r.target, server@, ssh.container@),
        r.label@ == server@ + seq!['/'] + ssh.container@,
        r.terminal@ == ssh.terminal@,
        r.init.command matches Some(c) && c@ == ssh.shell@,
        r.init.recreate == spec_recreate_mode(ssh.recreate),
        r.init.mode == Some(ContainerTerminalMode::Exec),
{
    let label = container_label(server.as_str(), ssh.container.as_str());
    ConnectRequest {
        target: TerminalTarget::Container { server, container: ssh.container.clone() },
        label,
        terminal: ssh.terminal.clone(),
        init: InitTerminal {
            command: Some(ssh.shell.clone()),
            recreate: recreate_mode(ssh.recreate),
            mode: Some(ContainerTerminalMode::Exec),
        },
    }
}

/// `km attach`, once the server is known: the container's main process,
/// labelled `<server>/<container> (attach)`.
pub fn attach_container(attach: &Attach, server: String) -> (r: ConnectRequest)
    ensures
        is_container_target(r.target, server@, attach.container@),
        r.label@ == server@ + seq!['/'] + attach.container@ + " (attach)"@,
        r.terminal@ == attach.terminal@,
        r.init.command is None,
        r.init.recreate == spec_recreate_mode(attach.recreate),
        r.init.mode == Some(ContainerTerminalMode::Attach),
{
    let mut label = container_label(server.as_str(), attach.container.as_str());
    label.append(" (attach)");
    ConnectRequest {
        target: TerminalTarget::Container { server, container: attach.container.clone() },
        label,
        terminal: attach.terminal.clone(),
        init: InitTerminal {
            command: None,
            recreate: recreate_mode(attach.recreate),
            mode: Some(ContainerTerminalMode::Attach),
        },
    }
}

/// `km exec host`: the command on the server.
pub fn exec_host(exec: &ExecHost) -> (r: ExecRequest)
    ensures
        is_server_target(r.target, exec.server@),
        r.command@ == exec.command@,
        r.terminal@ == exec.terminal@,
        same_option_text(r.init.command, exec.shell),
        r.init.recreate == spec_recreate_mode(exec.recreate),
        r.init.mode is None,
{
    ExecRequest {
        target: TerminalTarget::Server { server: Some(exec.server.clone()) },
        command: exec.command.clone(),
        terminal: exec.terminal.clone(),
        init: InitTerminal {
            command: clone_option(&exec.shell),
            recreate: recreate_mode(exec.recreate),
            mode: None,
        },
    }
}

/// `km exec container`, once the server is known: the command in an exec
/// terminal that runs the chosen shell.
pub fn exec_container(exec: &ExecContainer, server: String) -> (r: ExecRequest)
    ensures
        is_container_target(r.target, server@, exec.container@),
        r.command@ == exec.command@,
        r.terminal@ == exec.terminal@,
        r.init.command matches Some(c) && c@ == exec.shell@,
        r.init.recreate == spec_recreate_mode(exec.recreate),
        r.init.mode == Some(ContainerTerminalMode::Exec),
{
    ExecRequest {
        target: TerminalTarget::Container { server, container: exec.container.clone() },
        command: exec.command.clone(),
        terminal: exec.terminal.clone(),
        init: InitTerminal {
            command: Some(exec.shell.clone()),
            recreate: recreate_mode(exec.recreate),
            mode: Some(ContainerTerminalMode::Exec),
        },
    }
}

/// `<prefix>-exec-<process id>-<nanoseconds>`.
pub open spec fn spec_temporary_exec_terminal_name(
    prefix: Seq<char>,
    pid: nat,
    nanos: nat,
) -> Seq<char> {
    prefix + "-exec-"@ + ascii_chars(nat_decimal(pid)) + seq!['-'] + ascii_chars(
        nat_decimal(nanos),
    )
}

/// The name of a temporary terminal for one command: the given name, the
/// process id, and the time in nanoseconds since the Unix epoch.
pub fn temporary_exec_terminal_name(prefix: &str, pid: u32, nanos: u128) -> (r: String)
    ensures
        r@ == spec_temporary_exec_terminal_name(prefix@, pid as nat, nanos as nat),
{
    let mut s = String::from_str(prefix);
    s.append("-exec-");
    push_decimal_str(&mut s, pid as u128);
    push_char(&mut s, '-');
    push_decimal_str(&mut s, nanos);
    s
}

/// Copies a target.
fn clone_target(t: &TerminalTarget) -> (r: TerminalTarget)
    ensures
        same_target(*t, r),
{
    match t {
        TerminalTarget::Server { server } => TerminalTarget::Server { server: clone_option(server) },
        TerminalTarget::Container { server, container } => TerminalTarget::Container {
            server: server.clone(),
            container: container.clone(),
        },
    }
}

/// Readies a one-shot command: it runs in a fresh temporary terminal, always
/// recreated, and the cleanup call deletes exactly that terminal on the same
/// target.
pub fn prepare_execution(request: ExecRequest, pid: u32, nanos: u128) -> (r: ExecutionPlan)
    ensures
        same_target(r.execute.target, request.target),
        r.execute.terminal matches Some(t) && t@ == spec_temporary_exec_terminal_name(
            request.terminal@,
            pid as nat,
            nanos as nat,
        ),
        r.execute.command@ == request.command@,
        r.execute.init matches Some(init) && same_option_text(init.command, request.init.command)
            && init.mode == request.init.mode && init.recreate == TerminalRecreateMode::Always,
        same_target(r.cleanup.target, request.target),
        r.execute.terminal matches Some(t) && t@ == r.cleanup.terminal@,
{
    let terminal = temporary_exec_terminal_name(request.terminal.as_str(), pid, nanos);
    let init = InitTerminal {
        command: request.init.command,
        recreate: TerminalRecreateMode::Always,
        mode: request.init.mode,
    };
    let cleanup = DeleteTerminal { target: clone_target(&request.target), terminal: terminal.clone() };
    ExecutionPlan {
        execute: ExecuteTerminalBody {
            target: request.target,
            terminal: Some(terminal),
            command: request.command,
            init: Some(init),
        },
        cleanup,
    }
}

/// Law: temporary terminals made from the same name in the same process at
/// different times get different names.
pub proof fn law_temporary_names_differ_by_time(prefix: Seq<char>, pid: nat, t1: nat, t2: nat)
    requires
        t1 != t2,
    ensures
        spec_temporary_exec_terminal_name(prefix, pid, t1) != spec_temporary_exec_terminal_name(
            prefix,
            pid,
            t2,
        ),
{
    let head = prefix + "-exec-"@ + ascii_chars(nat_decimal(pid)) + seq!['-'];
    let d1 = ascii_chars(nat_decimal(t1));
    let d2 = ascii_chars(nat_decimal(t2));
    if head + d1 == head + d2 {
        assert((head + d1).skip(head.len() as int) =~= d1);
        assert((head + d2).skip(head.len() as int) =~= d2);
        crate::decimal::lemma_nat_decimal_injective(t1, t2);
    }
}

} // verus!
