//! The arguments of the `km` subcommands, as plain values.
use vstd::prelude::*;

verus! {

/// How a command prints what it fetched.
#[derive(Debug, Clone, Copy, PartialEq, Eq, Structural)]
pub enum CliFormat {
    /// A table for people.
    Table,
    /// JSON for scripts.
    Json,
}

/// `km procedure <name> ...`
#[derive(Debug, Clone)]
pub struct Procedure {
    /// The procedure name or id.
    pub procedure: String,
    /// The subcommand to run.
    pub command: ProcedureCommand,
}

/// The subcommands of `km procedure`.
#[derive(Debug, Clone)]
pub enum ProcedureCommand {
    /// Status of the procedure.
    Status { format: CliFormat },
    /// Run history, most recent first.
    Logs { limit: u32, format: CliFormat },
    /// Detailed logs of one run.
    RunLog { id: String, format: CliFormat },
}

/// `km shell ...`
#[derive(Debug, Clone)]
pub struct Shell {
    /// The shell command target.
    pub command: ShellCommand,
}

/// Where `km shell` runs its command.
#[derive(Debug, Clone)]
pub enum ShellCommand {
    /// On a host.
    Host(HostShell),
    /// In a container.
    Container(ContainerShell),
}

/// A command to run on a host.
#[derive(Debug, Clone)]
pub struct HostShell {
    /// Server id or name.
    pub server: String,
    /// Command to execute.
    pub command: String,
}

/// A command to run in a container.
#[derive(Debug, Clone)]
pub struct ContainerShell {
    /// Server id or name.
    pub server: String,
    /// Container name.
    pub container: String,
    /// Command to execute.
    pub command: String,
}

/// `km stack <name> ...`
#[derive(Debug, Clone)]
pub struct Stack {
    /// The stack name or id.
    pub stack: String,
    /// The subcommand to run.
    pub command: StackCommand,
}

/// The subcommands of `km stack`.
#[derive(Debug, Clone)]
pub enum StackCommand {
    /// Status of the stack.
    Status { format: CliFormat },
    /// Container logs of the stack.
    Logs(StackLogsOptions),
    /// The services of the stack.
    Services { format: CliFormat },
    /// Deployment history.
    Deploys { limit: u32, format: CliFormat },
    /// Logs of one deployment.
    DeployLog { id: String, format: CliFormat },
}

/// Options of `km stack <name> logs`.
#[derive(Debug, Clone)]
pub struct StackLogsOptions {
    /// Only these services.
    pub services: Vec<String>,
    /// How many lines from the end of the log.
    pub tail: u64,
    /// Show timestamps.
    pub timestamps: bool,
    /// The output format.
    pub format: CliFormat,
}

/// The most log lines that `km stack <name> logs` asks for.
pub const MAX_LOG_TAIL: u64 = 5000;

impl StackLogsOptions {
    /// The number of lines asked for: `tail`, capped at `MAX_LOG_TAIL`.
    pub fn capped_tail(&self) -> (r: u64)
        ensures
            r == if self.tail <= MAX_LOG_TAIL {
                self.tail
            } else {
                MAX_LOG_TAIL
            },
    {
        if self.tail <= MAX_LOG_TAIL {
            self.tail
        } else {
            MAX_LOG_TAIL
        }
    }
}

/// `km sync <name> ...`
#[derive(Debug, Clone)]
pub struct Sync {
    /// The sync name or id.
    pub sync: String,
    /// The subcommand to run.
    pub command: SyncCommand,
}

/// The subcommands of `km sync`.
#[derive(Debug, Clone)]
pub enum SyncCommand {
    /// Status of the sync.
    Status { format: CliFormat },
    /// Run history, most recent first.
    Logs { limit: u32, format: CliFormat },
    /// Detailed logs of one run.
    RunLog { id: String, format: CliFormat },
    /// Pending diffs.
    Diff { format: CliFormat },
}

/// `km variable ...`
#[derive(Debug, Clone)]
pub struct Variable {
    /// The subcommand to run.
    pub command: VariableCommand,
}

/// The subcommands of `km variable`.
#[derive(Debug, Clone)]
pub enum VariableCommand {
    /// List all variables.
    List { format: CliFormat },
    /// One variable's value.
    Get { name: String },
    /// Create a variable, with a value or from a command's output.
    Create {
        name: String,
        value: Option<String>,
        from_command: Option<String>,
        secret: bool,
        description: String,
        yes: bool,
    },
    /// Delete a variable.
    Delete { name: String, yes: bool },
}

/// `km ssh ...`
#[derive(Debug, Clone)]
pub struct Ssh {
    /// The terminal target to connect to.
    pub target: SshTarget,
}

/// Where `km ssh` connects.
#[derive(Debug, Clone)]
pub enum SshTarget {
    /// An interactive shell on a host terminal.
    Host(SshHost),
    /// An interactive shell in a container terminal.
    Container(SshContainer),
}

/// `km ssh host ...`
#[derive(Debug, Clone)]
pub struct SshHost {
    /// Server id or name.
    pub server: String,
    /// Terminal name on the host.
    pub terminal: String,
    /// The shell command that starts the session, if not the default.
    pub shell: Option<String>,
    /// Replace an existing terminal.
    pub recreate: bool,
}

/// `km ssh container ...`
#[derive(Debug, Clone)]
pub struct SshContainer {
    /// The container name.
    pub container: String,
    /// The server, needed where several have the container.
    pub server: Option<String>,
    /// Terminal name on the container target.
    pub terminal: String,
    /// Shell to use inside the container.
    pub shell: String,
    /// Replace an existing terminal.
    pub recreate: bool,
}

/// `km exec ...`
#[derive(Debug, Clone)]
pub struct Exec {
    /// The execution target.
    pub target: ExecTarget,
}

/// Where `km exec` runs its command.
#[derive(Debug, Clone)]
pub enum ExecTarget {
    /// A one-off command against a host terminal.
    Host(ExecHost),
    /// A one-off command in a container shell.
    Container(ExecContainer),
}

/// `km exec host ...`
#[derive(Debug, Clone)]
pub struct ExecHost {
    /// Server id or name.
    pub server: String,
    /// The remote command string to execute.
    pub command: String,
    /// Terminal name on the host.
    pub terminal: String,
    /// Shell command used when initializing the terminal.
    pub shell: Option<String>,
    /// Replace an existing terminal.
    pub recreate: bool,
}

/// `km exec container ...`
#[derive(Debug, Clone)]
pub struct ExecContainer {
    /// The container name.
    pub container: String,
    /// The remote command string to execute.
    pub command: String,
    /// The server, needed where several have the container.
    pub server: Option<String>,
    /// Terminal name on the container target.
    pub terminal: String,
    /// Shell to use inside the container.
    pub shell: String,
    /// Replace an existing terminal.
    pub recreate: bool,
}

/// `km attach ...`
#[derive(Debug, Clone)]
pub struct Attach {
    /// The container name.
    pub container: String,
    /// The server, needed where several have the container.
    pub server: Option<String>,
    /// Terminal name on the container target.
    pub terminal: String,
    /// Replace an existing terminal.
    pub recreate: bool,
}

} // verus!
