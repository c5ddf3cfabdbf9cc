use komodo_cli::args::{ContainerShell, HostShell};
use komodo_cli::requests::TerminalRecreateMode;
use komodo_cli::shell::{
    messages_suggest_missing_bash, next_terminal_name, plan_container_shell, plan_host_shell,
    retry_shell, settle_host_shell, should_retry_with_sh, validate_command, CommandError,
    HostShellFailure, ShellCommandExit, ShellKind,
};

#[test]
fn shell_kind_names() {
    assert_eq!(ShellKind::Bash.as_str(), "bash");
    assert_eq!(ShellKind::Sh.as_str(), "sh");
}

#[test]
fn shell_command_exit_text() {
    assert_eq!(
        ShellCommandExit(2).message(),
        "Shell command exited with non-zero code: 2"
    );
    assert_eq!(format!("{:?}", ShellCommandExit(2)), "ShellCommandExit(2)");
}

#[test]
fn blank_commands_are_refused() {
    assert_eq!(validate_command(""), Err(CommandError::EmptyCommand));
    assert_eq!(validate_command("  \t\n\r"), Err(CommandError::EmptyCommand));
    assert_eq!(validate_command("\u{3000}\u{a0}\u{2028}"), Err(CommandError::EmptyCommand));
    assert_eq!(validate_command("ls"), Ok(()));
    assert_eq!(validate_command("  df -h  "), Ok(()));
    assert_eq!(validate_command("\u{200b}"), Ok(()));
    assert_eq!(CommandError::EmptyCommand.message(), "The --command value cannot be empty");
    for text in ["", " ", "\u{85}", "x", " y "] {
        assert_eq!(validate_command(text).is_err(), text.trim().is_empty(), "{text:?}");
    }
}

#[test]
fn terminal_names_slug_the_server() {
    assert_eq!(
        next_terminal_name("my server/1", ShellKind::Bash, 1_700_000_000_000, 3),
        "km-bash-my-server-1-1700000000000-3"
    );
    assert_eq!(
        next_terminal_name("Prod_01-a", ShellKind::Sh, 0, 0),
        "km-sh-Prod_01-a-0-0"
    );
    assert_eq!(next_terminal_name("héllo", ShellKind::Sh, 5, 6), "km-sh-h-llo-5-6");
}

#[test]
fn terminal_names_differ_by_counter() {
    let a = next_terminal_name("srv", ShellKind::Bash, 42, 1);
    let b = next_terminal_name("srv", ShellKind::Bash, 42, 11);
    assert_ne!(a, b);
    // A server whose name ends in digits cannot make two names meet.
    let c = next_terminal_name("a", ShellKind::Sh, 1, 23);
    let d = next_terminal_name("a-1", ShellKind::Sh, 2, 3);
    assert_eq!(c, "km-sh-a-1-23");
    assert_eq!(d, "km-sh-a-1-2-3");
    assert_ne!(c, d);
}

#[test]
fn missing_bash_is_recognised_case_insensitively() {
    let messages = vec!["Failed to execute".to_string(), "Bash: Not Found".to_string()];
    assert!(messages_suggest_missing_bash(&messages));
    let messages = vec!["CHILD PROCESS EXITED IMMEDIATELY WITH CODE 127".to_string()];
    assert!(messages_suggest_missing_bash(&messages));
    let messages = vec!["permission denied".to_string()];
    assert!(!messages_suggest_missing_bash(&messages));
    let messages = vec!["connection".to_string(), "closed".to_string()];
    assert!(!messages_suggest_missing_bash(&messages));
    assert!(!messages_suggest_missing_bash(&Vec::new()));
}

#[test]
fn retry_decision_reads_the_whole_error_chain() {
    let error = anyhow::Error::msg("No such file or directory (os error 2)")
        .context("Failed to execute command in container");
    let (retry, messages) = should_retry_with_sh(&error);
    assert!(retry);
    assert_eq!(
        messages,
        vec!["Failed to execute command in container".to_string(), "No such file or directory (os error 2)".to_string()]
    );
    let error = anyhow::Error::msg("boom").context("Failed to execute");
    let (retry, messages) = should_retry_with_sh(&error);
    assert!(!retry);
    assert_eq!(messages, vec!["Failed to execute".to_string(), "boom".to_string()]);
}

#[test]
fn retry_only_from_bash_to_sh() {
    assert_eq!(retry_shell(ShellKind::Bash, true), Some(ShellKind::Sh));
    assert_eq!(retry_shell(ShellKind::Bash, false), None);
    assert_eq!(retry_shell(ShellKind::Sh, true), None);
}

#[test]
fn host_plan_starts_the_shell_asked_for_and_never_recreates() {
    let host = HostShell { server: "web 1".to_string(), command: "uptime".to_string() };
    let plan = plan_host_shell(ShellKind::Sh, &host, 10, 2).unwrap();
    assert_eq!(plan.server, "web 1");
    assert_eq!(plan.terminal, "km-sh-web-1-10-2");
    assert_eq!(plan.terminal_command, "sh");
    assert_eq!(plan.command, "uptime");
    let bash = plan_host_shell(ShellKind::Bash, &host, 10, 3).unwrap();
    assert_eq!(bash.terminal_command, "bash");
    assert_eq!(bash.terminal, "km-bash-web-1-10-3");
    assert_eq!(plan.recreate, TerminalRecreateMode::Never);
    let blank = HostShell { server: "web".to_string(), command: " ".to_string() };
    assert!(matches!(plan_host_shell(ShellKind::Bash, &blank, 1, 1), Err(CommandError::EmptyCommand)));
}

#[test]
fn container_plan_keeps_the_shell() {
    let c = ContainerShell {
        server: "s".to_string(),
        container: "c".to_string(),
        command: "ls".to_string(),
    };
    assert_eq!(plan_container_shell(ShellKind::Bash, &c), Ok(ShellKind::Bash));
    let blank = ContainerShell { command: "".to_string(), ..c };
    assert_eq!(plan_container_shell(ShellKind::Sh, &blank), Err(CommandError::EmptyCommand));
}

#[test]
fn host_shell_outcomes() {
    let (r, warn) = settle_host_shell::<&str>(Ok(()), Ok(()));
    assert!(r.is_ok() && warn.is_none());
    let (r, warn) = settle_host_shell(Ok(()), Err("delete"));
    assert!(matches!(r, Err(HostShellFailure::Cleanup("delete"))) && warn.is_none());
    let (r, warn) = settle_host_shell(Err("run"), Ok(()));
    assert!(matches!(r, Err(HostShellFailure::Command("run"))) && warn.is_none());
    let (r, warn) = settle_host_shell(Err("run"), Err("delete"));
    assert!(matches!(r, Err(HostShellFailure::Command("run"))));
    assert_eq!(warn, Some("delete"));
}
