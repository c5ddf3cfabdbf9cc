use komodo_cli::args::{CliFormat, StackLogsOptions};
use komodo_cli::session::{
    connection_border, lookup_container_server, no_container_message, stdin_action,
    ContainerLookup, StdinAction,
};
use komodo_cli::views::{
    container_state_color, history_operations, history_target, listed_value, rows_shown,
    run_status, runs_shown, table_preset, CellColor, CliTableBorders, ContainerState,
    PendingUpdates, RunHistory, TablePreset, service_row, shows_secrets, ServiceContainer,
};

#[test]
fn container_lookup_outcomes() {
    assert!(matches!(lookup_container_server(&vec![]), ContainerLookup::NotFound));
    match lookup_container_server(&vec![Some("srv".to_string())]) {
        ContainerLookup::Unique(Some(id)) => assert_eq!(id, "srv"),
        other => panic!("{other:?}"),
    }
    assert!(matches!(lookup_container_server(&vec![None]), ContainerLookup::Unique(None)));
    match lookup_container_server(&vec![Some("a".to_string()), None, Some("b".to_string())]) {
        ContainerLookup::Ambiguous(ids) => assert_eq!(ids, vec!["a".to_string(), "b".to_string()]),
        other => panic!("{other:?}"),
    }
    assert_eq!(no_container_message("nginx"), "Did not find any container matching nginx");
}

#[test]
fn banner_border_matches_the_banner() {
    let label = "web/nginx";
    let plain = format!("# Connected to {label} (km) #");
    assert_eq!(connection_border(label), "=".repeat(plain.chars().count()));
    assert_eq!(connection_border("é").chars().count(), 23);
}

#[test]
fn keyboard_input() {
    assert_eq!(stdin_action(b""), StdinAction::Stop);
    assert_eq!(stdin_action(&[197, 147]), StdinAction::Stop);
    assert_eq!(stdin_action(&[197, 148]), StdinAction::Forward);
    assert_eq!(stdin_action(b"ls\n"), StdinAction::Forward);
    assert_eq!(stdin_action(&[197, 147, 10]), StdinAction::Forward);
}

#[test]
fn table_presets() {
    assert_eq!(table_preset(None), TablePreset::HorizontalOnly);
    assert_eq!(table_preset(Some(CliTableBorders::Horizontal)), TablePreset::HorizontalOnly);
    assert_eq!(table_preset(Some(CliTableBorders::Vertical)), TablePreset::FullCondensed);
    assert_eq!(table_preset(Some(CliTableBorders::Inside)), TablePreset::NoBorders);
    assert_eq!(table_preset(Some(CliTableBorders::Outside)), TablePreset::BordersOnly);
    assert_eq!(table_preset(Some(CliTableBorders::All)), TablePreset::Full);
}

#[test]
fn run_rows_and_statuses() {
    assert_eq!(run_status(true), ("Success", CellColor::Green));
    assert_eq!(run_status(false), ("Failed", CellColor::Red));
    assert_eq!(rows_shown(10, 3), 3);
    assert_eq!(rows_shown(2, 3), 2);
    assert_eq!(runs_shown(10, 25), 10);
    assert_eq!(runs_shown(10, 4), 4);
}

#[test]
fn secrets_are_masked_in_lists() {
    assert_eq!(listed_value("hunter2", true, false), "********");
    assert_eq!(listed_value("plain", false, false), "plain");
    assert_eq!(listed_value("hunter2", true, true), "hunter2");
}

#[test]
fn secrets_are_shown_only_when_asked() {
    assert!(shows_secrets(Some("true")));
    assert!(shows_secrets(Some("1")));
    assert!(!shows_secrets(Some("TRUE")));
    assert!(!shows_secrets(Some("yes")));
    assert!(!shows_secrets(Some("0")));
    assert!(!shows_secrets(Some("")));
    assert!(!shows_secrets(None));
}

#[test]
fn service_rows() {
    let none = service_row(&None);
    assert_eq!(none.container, "-");
    assert_eq!(none.state, "Not running");
    assert_eq!(none.color, CellColor::Grey);
    let running = service_row(&Some(ServiceContainer {
        name: "web-1".to_string(),
        state: ContainerState::Running,
        state_text: "running".to_string(),
    }));
    assert_eq!(running.container, "web-1");
    assert_eq!(running.state, "running");
    assert_eq!(running.color, CellColor::Green);
}

#[test]
fn pending_updates_and_states() {
    let p = PendingUpdates { resources: 2, variables: 0, user_groups: 1 };
    assert_eq!(p.total(), 3);
    assert!(p.any());
    assert!(!PendingUpdates { resources: 0, variables: 0, user_groups: 0 }.any());
    assert_eq!(container_state_color(ContainerState::Running), CellColor::Green);
    assert_eq!(container_state_color(ContainerState::Paused), CellColor::DarkYellow);
    assert_eq!(container_state_color(ContainerState::Empty), CellColor::Grey);
    assert_eq!(container_state_color(ContainerState::Exited), CellColor::Red);
}

#[test]
fn log_tail_is_capped() {
    let opts = StackLogsOptions { services: vec![], tail: 100, timestamps: false, format: CliFormat::Table };
    assert_eq!(opts.capped_tail(), 100);
    let opts = StackLogsOptions { tail: 100_000, ..opts };
    assert_eq!(opts.capped_tail(), 5000);
}

#[test]
fn run_histories_query_their_operations() {
    assert_eq!(history_target(RunHistory::StackDeploys), "Stack");
    assert_eq!(
        history_operations(RunHistory::StackDeploys),
        vec!["DeployStack", "StartStack", "RestartStack", "StopStack", "DestroyStack", "PauseStack", "UnpauseStack"]
    );
    assert_eq!(history_target(RunHistory::ProcedureRuns), "Procedure");
    assert_eq!(history_operations(RunHistory::ProcedureRuns), vec!["RunProcedure"]);
    assert_eq!(history_target(RunHistory::SyncRuns), "ResourceSync");
    assert_eq!(history_operations(RunHistory::SyncRuns), vec!["RunSync", "CommitSync"]);
}
