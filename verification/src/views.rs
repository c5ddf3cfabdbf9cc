//! The choices behind the tables and summaries that `km stack`,
//! `km procedure`, `km sync` and `km variable` print.
use vstd::prelude::*;

verus! {

/// The table borders chosen in the CLI configuration.
#[derive(Debug, Clone, Copy, PartialEq, Eq, Structural)]
pub enum CliTableBorders {
    Horizontal,
    Vertical,
    Inside,
    Outside,
    All,
}

/// The table styles the CLI draws with.
#[derive(Debug, Clone, Copy, PartialEq, Eq, Structural)]
pub enum TablePreset {
    /// Horizontal lines only.
    HorizontalOnly,
    /// All lines, condensed.
    FullCondensed,
    /// Inner lines only.
    NoBorders,
    /// The outer border only.
    BordersOnly,
    /// All lines.
    Full,
}

/// The style for the configured borders; horizontal lines when none are
/// configured.
pub open spec fn spec_table_preset(borders: Option<CliTableBorders>) -> TablePreset {
    match borders {
        None => TablePreset::HorizontalOnly,
        Some(CliTableBorders::Horizontal) => TablePreset::HorizontalOnly,
        Some(CliTableBorders::Vertical) => TablePreset::FullCondensed,
        Some(CliTableBorders::Inside) => TablePreset::NoBorders,
        Some(CliTableBorders::Outside) => TablePreset::BordersOnly,
        Some(CliTableBorders::All) => TablePreset::Full,
    }
}

/// The table style for the configured borders.
pub fn table_preset(borders: Option<CliTableBorders>) -> (r: TablePreset)
    ensures
        r == spec_table_preset(borders),
{
    match borders {
        None => TablePreset::HorizontalOnly,
        Some(CliTableBorders::Horizontal) => TablePreset::HorizontalOnly,
        Some(CliTableBorders::Vertical) => TablePreset::FullCondensed,
        Some(CliTableBorders::Inside) => TablePreset::NoBorders,
        Some(CliTableBorders::Outside) => TablePreset::BordersOnly,
        Some(CliTableBorders::All) => TablePreset::Full,
    }
}

/// Colours of table cells.
#[derive(Debug, Clone, Copy, PartialEq, Eq, Structural)]
pub enum CellColor {
    Green,
    Red,
    DarkYellow,
    Grey,
}

/// The status cell of a run or deployment: its text and colour.
pub fn run_status(success: bool) -> (r: (&'static str, CellColor))
    ensures
        r.0@ == (if success {
            "Success"@
        } else {
            "Failed"@
        }),
        r.1 == (if success {
            CellColor::Green
        } else {
            CellColor::Red
        }),
{
    if success {
        ("Success", CellColor::Green)
    } else {
        ("Failed", CellColor::Red)
    }
}

/// How many rows a table with a row limit shows: the limit, or fewer when
/// there are fewer entries.
pub fn rows_shown(limit: u32, available: usize) -> (r: usize)
    ensures
        r == (if (limit as int) < available {
            limit as int
        } else {
            available as int
        }),
{
    if (limit as usize) < available {
        limit as usize
    } else {
        available
    }
}

/// The count in "Showing N most recent runs": the limit, or the number of
/// runs (as a `u32`) when that is smaller.
pub fn runs_shown(limit: u32, available: usize) -> (r: u32)
    ensures
        r == (if limit < available as u32 {
            limit
        } else {
            available as u32
        }),
{
    let n = available as u32;
    if limit < n {
        limit
    } else {
        n
    }
}

/// Whether the `KM_SHOW_SECRETS` setting asks for secret values to be shown:
/// it is set to `true` or `1`.
pub open spec fn spec_shows_secrets(setting: Option<Seq<char>>) -> bool {
    setting == Some(seq!['t', 'r', 'u', 'e']) || setting == Some(seq!['1'])
}

/// Whether the `KM_SHOW_SECRETS` setting, if set, asks for secret values to
/// be shown.
pub fn shows_secrets(setting: Option<&str>) -> (r: bool)
    ensures
        r == spec_shows_secrets(
            match setting {
                Some(s) => Some(s@),
                None => None,
            },
        ),
{
    match setting {
        None => false,
        Some(s) => {
            let c = crate::text::chars_of(s);
            if c.len() == 1 && c[0] == '1' {
                assert(s@ =~= seq!['1']);
                true
            } else if c.len() == 4 && c[0] == 't' && c[1] == 'r' && c[2] == 'u' && c[3] == 'e' {
                assert(s@ =~= seq!['t', 'r', 'u', 'e']);
                true
            } else {
                assert(s@ != seq!['1']) by {
                    if s@ == seq!['1'] {
                        assert(c@[0] == '1');
                    }
                }
                assert(s@ != seq!['t', 'r', 'u', 'e']) by {
                    if s@ == seq!['t', 'r', 'u', 'e'] {
                        assert(c@[0] == 't' && c@[1] == 'r' && c@[2] == 'u' && c@[3] == 'e');
                    }
                }
                false
            }
        },
    }
}

/// The text a variable's value shows as: a secret value is masked unless
/// secrets are to be shown.
pub fn listed_value(value: &str, is_secret: bool, show_secrets: bool) -> (r: String)
    ensures
        r@ == (if is_secret && !show_secrets {
            "********"@
        } else {
            value@
        }),
{
    if is_secret && !show_secrets {
        String::from_str("********")
    } else {
        String::from_str(value)
    }
}

/// The pending changes of a resource sync, by kind.
#[derive(Debug, Clone, Copy, PartialEq, Eq, Structural)]
pub struct PendingUpdates {
    /// Resource updates.
    pub resources: usize,
    /// Variable updates.
    pub variables: usize,
    /// User group updates.
    pub user_groups: usize,
}

impl PendingUpdates {
    /// All pending changes.
    pub fn total(&self) -> (r: usize)
        requires
            self.resources + self.variables + self.user_groups <= usize::MAX,
        ensures
            r == self.resources + self.variables + self.user_groups,
    {
        self.resources + self.variables + self.user_groups
    }

    /// Whether anything is pending, so that a diff has something to show.
    pub fn any(&self) -> (r: bool)
        ensures
            r == (self.resources > 0 || self.variables > 0 || self.user_groups > 0),
    {
        self.resources > 0 || self.variables > 0 || self.user_groups > 0
    }
}

/// The state of a stack service's container.
#[derive(Debug, Clone, Copy, PartialEq, Eq, Structural)]
pub enum ContainerState {
    Empty,
    Created,
    Running,
    Paused,
    Restarting,
    Removing,
    Exited,
    Dead,
}

/// The colour of a container state in the service table: running is green,
/// paused dark yellow, empty grey, anything else red.
pub open spec fn spec_container_state_color(state: ContainerState) -> CellColor {
    match state {
        ContainerState::Running => CellColor::Green,
        ContainerState::Paused => CellColor::DarkYellow,
        ContainerState::Empty => CellColor::Grey,
        _ => CellColor::Red,
    }
}

/// Law: a state is drawn green exactly when its container is running, dark
/// yellow exactly when paused, grey exactly when empty, and red in every
/// other state.
pub proof fn law_only_running_is_green(state: ContainerState)
    ensures
        spec_container_state_color(state) == CellColor::Green <==> state == ContainerState::Running,
        spec_container_state_color(state) == CellColor::DarkYellow <==> state
            == ContainerState::Paused,
        spec_container_state_color(state) == CellColor::Grey <==> state == ContainerState::Empty,
        spec_container_state_color(state) == CellColor::Red <==> (state != ContainerState::Running
            && state != ContainerState::Paused && state != ContainerState::Empty),
{
}

/// The colour of a container state in the service table.
pub fn container_state_color(state: ContainerState) -> (r: CellColor)
    ensures
        r == spec_container_state_color(state),
        r == CellColor::Green <==> state == ContainerState::Running,
        r == CellColor::Red <==> (state != ContainerState::Running && state
            != ContainerState::Paused && state != ContainerState::Empty),
{
    match state {
        ContainerState::Running => CellColor::Green,
        ContainerState::Paused => CellColor::DarkYellow,
        ContainerState::Empty => CellColor::Grey,
        _ => CellColor::Red,
    }
}

/// The container of a stack service, where it runs: its name and state, and
/// the state's text.
pub struct ServiceContainer {
    pub name: String,
    pub state: ContainerState,
    pub state_text: String,
}

/// A stack service's row in the service table: the container's name, its
/// state, and the state's colour.
pub struct ServiceRow {
    pub container: String,
    pub state: String,
    pub color: CellColor,
}

/// The row of a service: its container's name, state and state colour, or
/// `-`, `Not running` and grey where it has no container.
pub fn service_row(container: &Option<ServiceContainer>) -> (r: ServiceRow)
    ensures
        match container {
            Some(c) => r.container@ == c.name@ && r.state@ == c.state_text@ && r.color
                == spec_container_state_color(c.state),
            None => r.container@ == "-"@ && r.state@ == "Not running"@ && r.color
                == CellColor::Grey,
        },
{
    match container {
        Some(c) => ServiceRow {
            container: c.name.clone(),
            state: c.state_text.clone(),
            color: container_state_color(c.state),
        },
        None => ServiceRow {
            container: String::from_str("-"),
            state: String::from_str("Not running"),
            color: CellColor::Grey,
        },
    }
}

/// The run histories that `km` lists: a stack's deployments, a procedure's
/// runs and a sync's runs.
#[derive(Debug, Clone, Copy, PartialEq, Eq, Structural)]
pub enum RunHistory {
    StackDeploys,
    ProcedureRuns,
    SyncRuns,
}

/// The kind of resource whose updates a history lists.
pub open spec fn spec_history_target(h: RunHistory) -> Seq<char> {
    match h {
        RunHistory::StackDeploys => "Stack"@,
        RunHistory::ProcedureRuns => "Procedure"@,
        RunHistory::SyncRuns => "ResourceSync"@,
    }
}

/// The operations whose updates a history lists.
pub open spec fn spec_history_operations(h: RunHistory) -> Seq<Seq<char>> {
    match h {
        RunHistory::StackDeploys => seq![
            "DeployStack"@,
            "StartStack"@,
            "RestartStack"@,
            "StopStack"@,
            "DestroyStack"@,
            "PauseStack"@,
            "UnpauseStack"@,
        ],
        RunHistory::ProcedureRuns => seq!["RunProcedure"@],
        RunHistory::SyncRuns => seq!["RunSync"@, "CommitSync"@],
    }
}

/// The kind of resource (the query's `target.type`) whose updates a history
/// lists.
pub fn history_target(h: RunHistory) -> (r: &'static str)
    ensures
        r@ == spec_history_target(h),
{
    match h {
        RunHistory::StackDeploys => "Stack",
        RunHistory::ProcedureRuns => "Procedure",
        RunHistory::SyncRuns => "ResourceSync",
    }
}

/// The operations (the query's `operation` set) whose updates a history
/// lists, in the order the query names them.
pub fn history_operations(h: RunHistory) -> (r: Vec<&'static str>)
    ensures
        r@.map_values(|s: &'static str| s@) == spec_history_operations(h),
{
    let r: Vec<&'static str> = match h {
        RunHistory::StackDeploys => vec![
            "DeployStack",
            "StartStack",
            "RestartStack",
            "StopStack",
            "DestroyStack",
            "PauseStack",
            "UnpauseStack",
        ],
        RunHistory::ProcedureRuns => vec!["RunProcedure"],
        RunHistory::SyncRuns => vec!["RunSync", "CommitSync"],
    };
    assert(r@.map_values(|s: &'static str| s@) =~= spec_history_operations(h));
    r
}

} // verus!
