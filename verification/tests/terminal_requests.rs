use komodo_cli::args::{Attach, ExecContainer, ExecHost, SshContainer, SshHost};
use komodo_cli::client::{container_terminal_body, server_terminal_body, terminal_execute_url};
use komodo_cli::requests::{
    attach_container, connect_container, connect_host, exec_container, exec_host,
    prepare_execution, recreate_mode, temporary_exec_terminal_name, ContainerTerminalMode,
    TerminalRecreateMode, TerminalTarget,
};

fn server_of(target: &TerminalTarget) -> Option<&str> {
    match target {
        TerminalTarget::Server { server } => server.as_deref(),
        TerminalTarget::Container { server, .. } => Some(server.as_str()),
    }
}

#[test]
fn recreate_flag() {
    assert_eq!(recreate_mode(true), TerminalRecreateMode::Always);
    assert_eq!(recreate_mode(false), TerminalRecreateMode::DifferentCommand);
}

#[test]
fn ssh_host_request() {
    let host = SshHost {
        server: "db".to_string(),
        terminal: "ssh".to_string(),
        shell: Some("zsh".to_string()),
        recreate: false,
    };
    let r = connect_host(&host);
    assert!(matches!(&r.target, TerminalTarget::Server { server: Some(s) } if s == "db"));
    assert_eq!(r.label, "db");
    assert_eq!(r.terminal, "ssh");
    assert_eq!(r.init.command.as_deref(), Some("zsh"));
    assert_eq!(r.init.recreate, TerminalRecreateMode::DifferentCommand);
    assert_eq!(r.init.mode, None);
}

#[test]
fn ssh_container_and_attach_labels() {
    let ssh = SshContainer {
        container: "nginx".to_string(),
        server: None,
        terminal: "ssh".to_string(),
        shell: "sh".to_string(),
        recreate: true,
    };
    let r = connect_container(&ssh, "web".to_string());
    assert_eq!(r.label, "web/nginx");
    assert!(matches!(&r.target, TerminalTarget::Container { server, container } if server == "web" && container == "nginx"));
    assert_eq!(r.init.command.as_deref(), Some("sh"));
    assert_eq!(r.init.recreate, TerminalRecreateMode::Always);
    assert_eq!(r.init.mode, Some(ContainerTerminalMode::Exec));

    let attach = Attach {
        container: "nginx".to_string(),
        server: Some("web".to_string()),
        terminal: "attach".to_string(),
        recreate: false,
    };
    let r = attach_container(&attach, "web".to_string());
    assert_eq!(r.label, "web/nginx (attach)");
    assert_eq!(r.terminal, "attach");
    assert_eq!(r.init.command, None);
    assert_eq!(r.init.mode, Some(ContainerTerminalMode::Attach));
}

#[test]
fn exec_requests() {
    let host = ExecHost {
        server: "db".to_string(),
        command: "df -h".to_string(),
        terminal: "cli".to_string(),
        shell: None,
        recreate: false,
    };
    let r = exec_host(&host);
    assert_eq!(server_of(&r.target), Some("db"));
    assert_eq!(r.command, "df -h");
    assert_eq!(r.init.command, None);

    let c = ExecContainer {
        container: "app".to_string(),
        command: "ls /data".to_string(),
        server: Some("web".to_string()),
        terminal: "cli".to_string(),
        shell: "sh".to_string(),
        recreate: true,
    };
    let r = exec_container(&c, "web".to_string());
    assert_eq!(server_of(&r.target), Some("web"));
    assert_eq!(r.init.mode, Some(ContainerTerminalMode::Exec));
    assert_eq!(r.init.recreate, TerminalRecreateMode::Always);
}

#[test]
fn temporary_names() {
    assert_eq!(temporary_exec_terminal_name("cli", 42, 123), "cli-exec-42-123");
    assert_ne!(
        temporary_exec_terminal_name("cli", 42, 123),
        temporary_exec_terminal_name("cli", 42, 124)
    );
}

#[test]
fn execution_always_recreates_and_cleans_up_its_terminal() {
    let host = ExecHost {
        server: "db".to_string(),
        command: "uptime".to_string(),
        terminal: "cli".to_string(),
        shell: Some("bash".to_string()),
        recreate: false,
    };
    let plan = prepare_execution(exec_host(&host), 7, 99);
    assert_eq!(plan.execute.terminal.as_deref(), Some("cli-exec-7-99"));
    assert_eq!(plan.cleanup.terminal, "cli-exec-7-99");
    assert_eq!(plan.execute.command, "uptime");
    let init = plan.execute.init.unwrap();
    assert_eq!(init.recreate, TerminalRecreateMode::Always);
    assert_eq!(init.command.as_deref(), Some("bash"));
    assert_eq!(server_of(&plan.execute.target), Some("db"));
    assert_eq!(server_of(&plan.cleanup.target), Some("db"));
}

#[test]
fn client_terminal_calls() {
    assert_eq!(
        terminal_execute_url("https://komodo.example"),
        "https://komodo.example/terminal/execute"
    );
    let b = server_terminal_body("db".to_string(), Some("t".to_string()), "ls".to_string(), None);
    assert_eq!(server_of(&b.target), Some("db"));
    assert_eq!(b.terminal.as_deref(), Some("t"));
    let b = container_terminal_body(
        "db".to_string(),
        "app".to_string(),
        None,
        "ls".to_string(),
        None,
    );
    assert!(matches!(&b.target, TerminalTarget::Container { container, .. } if container == "app"));
    assert_eq!(b.command, "ls");
}
