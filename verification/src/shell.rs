//! `km shell`: one-shot commands on a host, through a temporary terminal, or
//! in a container, under `bash` with a fall-back to `sh`.
use vstd::prelude::*;

use crate::args::{ContainerShell, HostShell};
use crate::decimal::{ascii_chars, int_decimal, nat_decimal, push_decimal_str, push_i32_str};
use crate::requests::TerminalRecreateMode;
use crate::text::{
    contains_str, is_ascii_alphanumeric, is_blank, join_lines, joined_lines, push_char,
    str_contains, texts_of, to_lowercase, trims_to_empty, unicode_lowercase,
};

verus! {

/// The shell a one-shot command runs under.
#[derive(Debug, Clone, Copy, PartialEq, Eq, Structural)]
pub enum ShellKind {
    Bash,
    Sh,
}

/// The name of a shell.
pub open spec fn shell_name(kind: ShellKind) -> Seq<char> {
    match kind {
        ShellKind::Bash => "bash"@,
        ShellKind::Sh => "sh"@,
    }
}

impl ShellKind {
    /// The shell's name: `bash` or `sh`.
    pub fn as_str(self) -> (r: &'static str)
        ensures
            r@ == shell_name(self),
    {
        match self {
            ShellKind::Bash => "bash",
            ShellKind::Sh => "sh",
        }
    }
}

/// A shell command exited with a non-zero code.
#[derive(Debug)]
pub struct ShellCommandExit(pub i32);

impl ShellCommandExit {
    /// `Shell command exited with non-zero code: <code>`.
    pub fn message(&self) -> (r: String)
        ensures
            r@ == "Shell command exited with non-zero code: "@ + ascii_chars(
                int_decimal(self.0 as int),
            ),
    {
        let mut s = String::from_str("Shell command exited with non-zero code: ");
        push_i32_str(&mut s, self.0);
        s
    }
}

/// Why `km shell` refuses a command before running it.
#[derive(Debug, Clone, Copy, PartialEq, Eq, Structural)]
pub enum CommandError {
    /// The command is empty or only white space.
    EmptyCommand,
}

impl CommandError {
    /// The error's text.
    pub fn message(&self) -> (r: String)
        ensures
            r@ == "The --command value cannot be empty"@,
    {
        String::from_str("The --command value cannot be empty")
    }
}

/// Refuses a command that is empty once trimmed of white space.
pub fn validate_command(command: &str) -> (r: Result<(), CommandError>)
    ensures
        r is Err <==> is_blank(command@),
        r matches Err(e) ==> e == CommandError::EmptyCommand,
{
    if trims_to_empty(command) {
        Err(CommandError::EmptyCommand)
    } else {
        Ok(())
    }
}

/// A server name's character as it appears in a terminal name: ASCII letters,
/// digits, `-` and `_` stay, anything else becomes `-`.
pub open spec fn slug_char(c: char) -> char {
    if is_ascii_alphanumeric(c) || c == '-' || c == '_' {
        c
    } else {
        '-'
    }
}

/// A server name made safe for a terminal name.
pub open spec fn server_slug(server: Seq<char>) -> Seq<char> {
    server.map_values(|c: char| slug_char(c))
}

/// `km-<shell>-<server slug>-<milliseconds>-<counter>`.
pub open spec fn terminal_name(
    server: Seq<char>,
    kind: ShellKind,
    ts_ms: nat,
    counter: nat,
) -> Seq<char> {
    "km-"@ + shell_name(kind) + seq!['-'] + server_slug(server) + seq!['-'] + ascii_chars(
        nat_decimal(ts_ms),
    ) + seq!['-'] + ascii_chars(nat_decimal(counter))
}

/// The name of a temporary host terminal, from the server, the shell, the
/// time in milliseconds since the Unix epoch, and a per-process counter.
pub fn next_terminal_name(server: &str, shell_kind: ShellKind, ts_ms: u128, counter: u64) -> (r:
    String)
    ensures
        r@ == terminal_name(server@, shell_kind, ts_ms as nat, counter as nat),
{
    let mut s = String::from_str("km-");
    s.append(shell_kind.as_str());
    push_char(&mut s, '-');
    let ghost head = s@;
    let chars = crate::text::chars_of(server);
    let n = chars.len();
    let mut i: usize = 0;
    while i < n
        invariant
            i <= n,
            n == server@.len(),
            chars@ == server@,
            s@ == head + server_slug(server@.take(i as int)),
        decreases n - i,
    {
        let c = chars[i];
        let d = if ('0' <= c && c <= '9') || ('a' <= c && c <= 'z') || ('A' <= c && c <= 'Z') || c
            == '-' || c == '_' {
            c
        } else {
            '-'
        };
        push_char(&mut s, d);
        assert(server_slug(server@.take(i + 1)) =~= server_slug(server@.take(i as int)).push(d));
        i = i + 1;
    }
    assert(server@.take(n as int) =~= server@);
    push_char(&mut s, '-');
    push_decimal_str(&mut s, ts_ms);
    push_char(&mut s, '-');
    push_decimal_str(&mut s, counter as u128);
    assert(s@ =~= terminal_name(server@, shell_kind, ts_ms as nat, counter as nat));
    s
}

/// The error texts that mean that `bash` could not be started, so that the
/// command is worth retrying under `sh`.
pub open spec fn retry_patterns() -> Seq<Seq<char>> {
    seq![
        "child process exited immediately with code 126"@,
        "child process exited immediately with code 127"@,
        "executable file not found"@,
        "no such file or directory"@,
        "bash: not found"@,
        "connection closed"@,
        "failed to create terminal for container exec"@,
        "failed to init terminal"@,
    ]
}

/// One of the retry patterns.
fn retry_pattern(i: usize) -> (r: &'static str)
    requires
        i < 8,
    ensures
        r@ == retry_patterns()[i as int],
{
    match i {
        0 => "child process exited immediately with code 126",
        1 => "child process exited immediately with code 127",
        2 => "executable file not found",
        3 => "no such file or directory",
        4 => "bash: not found",
        5 => "connection closed",
        6 => "failed to create terminal for container exec",
        _ => "failed to init terminal",
    }
}

/// The messages of an error chain, joined by line breaks and lowercased,
/// hold one of the retry patterns.
pub open spec fn suggests_missing_bash(messages: Seq<Seq<char>>) -> bool {
    exists|i: int|
        0 <= i < retry_patterns().len() && str_contains(
            unicode_lowercase(joined_lines(messages)),
            #[trigger] retry_patterns()[i],
        )
}

/// The text the retry decision searches: the messages joined by line breaks,
/// lowercased.
pub open spec fn chain_text(messages: Seq<Seq<char>>) -> Seq<char> {
    unicode_lowercase(joined_lines(messages))
}

/// Law: an error chain suggests that `bash` is missing exactly when its
/// lowercased text holds one of these eight texts.
pub proof fn law_retry_patterns(messages: Seq<Seq<char>>)
    ensures
        suggests_missing_bash(messages) <==> {
            ||| str_contains(chain_text(messages), "child process exited immediately with code 126"@)
            ||| str_contains(chain_text(messages), "child process exited immediately with code 127"@)
            ||| str_contains(chain_text(messages), "executable file not found"@)
            ||| str_contains(chain_text(messages), "no such file or directory"@)
            ||| str_contains(chain_text(messages), "bash: not found"@)
            ||| str_contains(chain_text(messages), "connection closed"@)
            ||| str_contains(chain_text(messages), "failed to create terminal for container exec"@)
            ||| str_contains(chain_text(messages), "failed to init terminal"@)
        },
{
    let p = retry_patterns();
    assert(p[0] == "child process exited immediately with code 126"@);
    assert(p[1] == "child process exited immediately with code 127"@);
    assert(p[2] == "executable file not found"@);
    assert(p[3] == "no such file or directory"@);
    assert(p[4] == "bash: not found"@);
    assert(p[5] == "connection closed"@);
    assert(p[6] == "failed to create terminal for container exec"@);
    assert(p[7] == "failed to init terminal"@);
}

/// Whether an error chain, given by the messages of the error and of its
/// causes, says that `bash` could not be started.
pub fn messages_suggest_missing_bash(messages: &Vec<String>) -> (r: bool)
    ensures
        r == suggests_missing_bash(texts_of(messages@)),
        str_contains(chain_text(texts_of(messages@)), "child process exited immediately with code 126"@) ==> r,
        str_contains(chain_text(texts_of(messages@)), "child process exited immediately with code 127"@) ==> r,
        str_contains(chain_text(texts_of(messages@)), "executable file not found"@) ==> r,
        str_contains(chain_text(texts_of(messages@)), "no such file or directory"@) ==> r,
        str_contains(chain_text(texts_of(messages@)), "bash: not found"@) ==> r,
        str_contains(chain_text(texts_of(messages@)), "connection closed"@) ==> r,
        str_contains(chain_text(texts_of(messages@)), "failed to create terminal for container exec"@) ==> r,
        str_contains(chain_text(texts_of(messages@)), "failed to init terminal"@) ==> r,
        r ==> {
            ||| str_contains(chain_text(texts_of(messages@)), "child process exited immediately with code 126"@)
            ||| str_contains(chain_text(texts_of(messages@)), "child process exited immediately with code 127"@)
            ||| str_contains(chain_text(texts_of(messages@)), "executable file not found"@)
            ||| str_contains(chain_text(texts_of(messages@)), "no such file or directory"@)
            ||| str_contains(chain_text(texts_of(messages@)), "bash: not found"@)
            ||| str_contains(chain_text(texts_of(messages@)), "connection closed"@)
            ||| str_contains(chain_text(texts_of(messages@)), "failed to create terminal for container exec"@)
            ||| str_contains(chain_text(texts_of(messages@)), "failed to init terminal"@)
        },
{
    proof {
        law_retry_patterns(texts_of(messages@));
    }
    let chain = join_lines(messages);
    let lower = to_lowercase(chain.as_str());
    let mut i: usize = 0;
    while i < 8
        invariant
            i <= 8,
            lower@ == unicode_lowercase(joined_lines(texts_of(messages@))),
            forall|j: int| 0 <= j < i ==> !str_contains(lower@, #[trigger] retry_patterns()[j]),
        decreases 8 - i,
    {
        let pattern = retry_pattern(i);
        if contains_str(lower.as_str(), pattern) {
            assert(str_contains(lower@, retry_patterns()[i as int]));
            return true;
        }
        i = i + 1;
    }
    assert(retry_patterns().len() == 8);
    false
}

/// `anyhow::Error` as a value that the library carries through.
#[verifier::external_type_specification]
#[verifier::external_body]
pub struct ExAnyhowError(anyhow::Error);

/// `anyhow::Error::chain`, each link turned into its message: the error's own
/// message first, then those of its causes. Each message is what that error
/// type's `Display` writes, which anyhow does not fix, so nothing is stated of
/// them.
#[verifier::external_body]
fn error_chain_messages(error: &anyhow::Error) -> Vec<String> {
    error.chain().map(|link| link.to_string()).collect()
}

/// Whether a failed container command is worth retrying under `sh`, with the
/// messages of the error's chain that the decision read: whether those
/// messages say that `bash` could not be started (see
/// `messages_suggest_missing_bash`).
pub fn should_retry_with_sh(error: &anyhow::Error) -> (r: (bool, Vec<String>))
    ensures
        r.0 == suggests_missing_bash(texts_of(r.1@)),
{
    let messages = error_chain_messages(error);
    let retry = messages_suggest_missing_bash(&messages);
    (retry, messages)
}

/// The shell to retry a failed container command under, if any: `sh`, when
/// the command ran under `bash` and its failure suggests that `bash` is
/// missing.
pub fn retry_shell(shell_kind: ShellKind, suggests_missing_bash: bool) -> (r: Option<ShellKind>)
    ensures
        r == (if shell_kind == ShellKind::Bash && suggests_missing_bash {
            Some(ShellKind::Sh)
        } else {
            None
        }),
{
    if shell_kind == ShellKind::Bash && suggests_missing_bash {
        Some(ShellKind::Sh)
    } else {
        None
    }
}

/// What `km shell host` asks Komodo Core to do: create a terminal, run the
/// command in it, and delete it again.
#[derive(Debug, Clone)]
pub struct HostShellPlan {
    /// The server to run on.
    pub server: String,
    /// The temporary terminal's name.
    pub terminal: String,
    /// The command that starts the terminal.
    pub terminal_command: String,
    /// The command to execute.
    pub command: String,
    /// How an existing terminal of that name is treated.
    pub recreate: TerminalRecreateMode,
}

/// The plan for `km shell host`: a command that is blank is refused; the
/// terminal starts the shell asked for (`bash` or `sh`), is never recreated,
/// and is named after the server, that shell, the time and the counter.
pub fn plan_host_shell(shell_kind: ShellKind, host: &HostShell, ts_ms: u128, counter: u64) -> (r:
    Result<HostShellPlan, CommandError>)
    ensures
        r is Err <==> is_blank(host.command@),
        r matches Ok(plan) ==> {
            &&& plan.server@ == host.server@
            &&& plan.terminal@ == terminal_name(
                host.server@,
                shell_kind,
                ts_ms as nat,
                counter as nat,
            )
            &&& plan.terminal_command@ == shell_name(shell_kind)
            &&& plan.command@ == host.command@
            &&& plan.recreate == TerminalRecreateMode::Never
        },
{
    validate_command(host.command.as_str())?;
    let terminal = next_terminal_name(host.server.as_str(), shell_kind, ts_ms, counter);
    Ok(
        HostShellPlan {
            server: host.server.clone(),
            terminal,
            terminal_command: String::from_str(shell_kind.as_str()),
            command: host.command.clone(),
            recreate: TerminalRecreateMode::Never,
        },
    )
}

/// What `km shell container` runs: the command, under the shell asked for,
/// once a blank command is refused.
pub fn plan_container_shell(shell_kind: ShellKind, container: &ContainerShell) -> (r: Result<
    ShellKind,
    CommandError,
>)
    ensures
        r is Err <==> is_blank(container.command@),
        r matches Ok(k) ==> k == shell_kind,
{
    validate_command(container.command.as_str())?;
    Ok(shell_kind)
}

/// Why `km shell host` failed after its terminal was created.
#[derive(Debug, Clone)]
pub enum HostShellFailure<E> {
    /// The command failed (or could not be run).
    Command(E),
    /// The command completed, but its terminal could not be deleted.
    Cleanup(E),
}

/// The outcome of `km shell host` from how running the command and deleting
/// the terminal went: a command failure wins over a cleanup failure, which is
/// then only worth a warning (the second part).
pub fn settle_host_shell<E>(execute: Result<(), E>, delete: Result<(), E>) -> (r: (
    Result<(), HostShellFailure<E>>,
    Option<E>,
))
    ensures
        r == (match (execute, delete) {
            (Ok(_), Ok(_)) => (Ok(()), None),
            (Ok(_), Err(d)) => (Err(HostShellFailure::Cleanup(d)), None),
            (Err(x), Ok(_)) => (Err(HostShellFailure::Command(x)), None),
            (Err(x), Err(d)) => (Err(HostShellFailure::Command(x)), Some(d)),
        }),
{
    match (execute, delete) {
        (Ok(()), Ok(())) => (Ok(()), None),
        (Ok(()), Err(d)) => (Err(HostShellFailure::Cleanup(d)), None),
        (Err(x), Ok(())) => (Err(HostShellFailure::Command(x)), None),
        (Err(x), Err(d)) => (Err(HostShellFailure::Command(x)), Some(d)),
    }
}

/// Law: a server's slug is as long as its name and holds only ASCII
/// letters, digits, `-` and `_`.
pub proof fn law_server_slug_is_safe(server: Seq<char>)
    ensures
        server_slug(server).len() == server.len(),
        forall|i: int|
            0 <= i < server.len() ==> {
                let c = #[trigger] server_slug(server)[i];
                is_ascii_alphanumeric(c) || c == '-' || c == '_'
            },
{
}

/// The characters of a number's decimal text are digits, never `-`.
proof fn lemma_decimal_chars_not_dash(n: nat)
    ensures
        ascii_chars(nat_decimal(n)).len() >= 1,
        forall|i: int|
            0 <= i < ascii_chars(nat_decimal(n)).len() ==> #[trigger] ascii_chars(
                nat_decimal(n),
            )[i] != '-',
{
    crate::decimal::lemma_nat_decimal(n);
    let d = nat_decimal(n);
    assert forall|i: int| 0 <= i < ascii_chars(d).len() implies #[trigger] ascii_chars(d)[i]
        != '-' by {
        assert(crate::decimal::is_digit(d[i]));
        assert(ascii_chars(d)[i] == d[i] as char);
    }
}

/// Law: two temporary terminals get different names whenever their counters
/// differ, whatever their servers, shells and times. The counter is the last
/// `-`-separated field of the name, and one process hands out a new counter
/// value for each name, so the names that one process makes all differ.
pub proof fn law_terminal_names_differ_by_counter(
    server1: Seq<char>,
    kind1: ShellKind,
    ts1: nat,
    c1: nat,
    server2: Seq<char>,
    kind2: ShellKind,
    ts2: nat,
    c2: nat,
)
    requires
        c1 != c2,
    ensures
        terminal_name(server1, kind1, ts1, c1) != terminal_name(server2, kind2, ts2, c2),
{
    let head1 = "km-"@ + shell_name(kind1) + seq!['-'] + server_slug(server1) + seq!['-']
        + ascii_chars(nat_decimal(ts1)) + seq!['-'];
    let head2 = "km-"@ + shell_name(kind2) + seq!['-'] + server_slug(server2) + seq!['-']
        + ascii_chars(nat_decimal(ts2)) + seq!['-'];
    let d1 = ascii_chars(nat_decimal(c1));
    let d2 = ascii_chars(nat_decimal(c2));
    let n1 = terminal_name(server1, kind1, ts1, c1);
    let n2 = terminal_name(server2, kind2, ts2, c2);
    assert(n1 == head1 + d1);
    assert(n2 == head2 + d2);
    lemma_decimal_chars_not_dash(c1);
    lemma_decimal_chars_not_dash(c2);
    if n1 == n2 {
        let l = n1.len() as int;
        if d1.len() < d2.len() {
            let i = l - d1.len() - 1;
            assert(n1[i] == head1[head1.len() - 1]);
            assert(head1[head1.len() - 1] == '-');
            assert(n2[i] == d2[i - head2.len()]);
        } else if d2.len() < d1.len() {
            let i = l - d2.len() - 1;
            assert(n2[i] == head2[head2.len() - 1]);
            assert(head2[head2.len() - 1] == '-');
            assert(n1[i] == d1[i - head1.len()]);
        } else {
            assert(n1.skip(head1.len() as int) =~= d1);
            assert(n2.skip(head2.len() as int) =~= d2);
            crate::decimal::lemma_nat_decimal_injective(c1, c2);
        }
    }
}

} // verus!
