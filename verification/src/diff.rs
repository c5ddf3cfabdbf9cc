//! What `km sync diff` shows of a sync's pending changes: for each change its
//! marker, its subject and the lines of the current and proposed texts.
use vstd::prelude::*;

use crate::text::{string_of, texts_of};

verus! {

/// Drops one `\r` at the end of a line.
pub open spec fn strip_cr(line: Seq<char>) -> Seq<char> {
    if line.len() > 0 && line.last() == '\r' {
        line.drop_last()
    } else {
        line
    }
}

/// Reading `s` from the front: the lines ended by a `\n` so far (each
/// without its `\r\n` or `\n`), and the characters after the last `\n`.
pub open spec fn scan_lines(s: Seq<char>) -> (Seq<Seq<char>>, Seq<char>)
    decreases s.len(),
{
    if s.len() == 0 {
        (Seq::empty(), Seq::empty())
    } else {
        let (done, rest) = scan_lines(s.drop_last());
        if s.last() == '\n' {
            (done.push(strip_cr(rest)), Seq::empty())
        } else {
            (done, rest.push(s.last()))
        }
    }
}

/// The lines of `s` as `str::lines` gives them: split at each `\n`, a `\r`
/// just before the `\n` dropped, and no empty line after a final `\n`.
pub open spec fn text_lines(s: Seq<char>) -> Seq<Seq<char>> {
    let (done, rest) = scan_lines(s);
    if rest.len() == 0 {
        done
    } else {
        done.push(rest)
    }
}

/// The lines of `s`, as `s.lines()` yields them.
pub fn split_lines(s: &str) -> (r: Vec<String>)
    ensures
        texts_of(r@) == text_lines(s@),
{
    let chars = crate::text::chars_of(s);
    let mut done: Vec<String> = Vec::new();
    let mut rest: Vec<char> = Vec::new();
    let mut i: usize = 0;
    while i < chars.len()
        invariant
            i <= chars@.len(),
            chars@ == s@,
            texts_of(done@) == scan_lines(s@.take(i as int)).0,
            rest@ == scan_lines(s@.take(i as int)).1,
        decreases chars@.len() - i,
    {
        let c = chars[i];
        assert(s@.take(i + 1).drop_last() =~= s@.take(i as int));
        assert(s@.take(i + 1).last() == c);
        if c == '\n' {
            let n = rest.len();
            if n > 0 && rest[n - 1] == '\r' {
                rest.pop();
            }
            let line = string_of(rest.as_slice());
            let ghost before = done@;
            done.push(line);
            assert(texts_of(done@) =~= texts_of(before).push(line@));
            rest = Vec::new();
        } else {
            rest.push(c);
        }
        i = i + 1;
    }
    assert(s@.take(chars@.len() as int) =~= s@);
    if rest.len() > 0 {
        let ghost before = done@;
        let last = string_of(rest.as_slice());
        done.push(last);
        assert(texts_of(done@) =~= texts_of(before).push(last@));
    }
    done
}

/// A pending change of a sync, as Komodo reports it.
pub enum DiffData {
    /// A resource, variable or group to be created.
    Create { name: String, proposed: String },
    /// One to be changed from `current` to `proposed`.
    Update { proposed: String, current: String },
    /// One to be deleted.
    Delete { current: String },
}

/// A pending change of a resource, with the resource it concerns: the name of
/// its kind (`Server`, `Stack`, ...) and its id.
pub struct ResourceDiff {
    pub target_type: String,
    pub target_id: String,
    pub data: DiffData,
}

/// The kinds of changes: `+` in green, `~` in yellow, `-` in red.
#[derive(Debug, Clone, Copy, PartialEq, Eq, Structural)]
pub enum DiffMarker {
    Create,
    Update,
    Delete,
}

/// The character that marks a kind of change.
pub fn marker_char(m: DiffMarker) -> (c: char)
    ensures
        c == (match m {
            DiffMarker::Create => '+',
            DiffMarker::Update => '~',
            DiffMarker::Delete => '-',
        }),
{
    match m {
        DiffMarker::Create => '+',
        DiffMarker::Update => '~',
        DiffMarker::Delete => '-',
    }
}

/// The changes that are not resources.
#[derive(Debug, Clone, Copy, PartialEq, Eq, Structural)]
pub enum NamedKind {
    Variable,
    UserGroup,
}

/// How a change is shown: its marker and subject (with the resource kind for
/// a resource), then the lines of the current text, then those of the
/// proposed text, each where the change has one.
pub struct DiffEntry {
    pub marker: DiffMarker,
    pub subject: String,
    pub resource_type: Option<String>,
    pub current: Option<Vec<String>>,
    pub proposed: Option<Vec<String>>,
}

/// The text of an optional string.
pub open spec fn option_text(s: Option<String>) -> Option<Seq<char>> {
    match s {
        Some(s) => Some(s@),
        None => None,
    }
}

/// `shown` holds the lines of `text`, and is there exactly when `text` is.
pub open spec fn shows_lines(shown: Option<Vec<String>>, text: Option<Seq<char>>) -> bool {
    match (shown, text) {
        (None, None) => true,
        (Some(v), Some(t)) => texts_of(v@) == text_lines(t),
        _ => false,
    }
}

/// `e` shows a change with this marker, subject and resource kind, and these
/// current and proposed texts.
pub open spec fn shows_entry(
    e: DiffEntry,
    marker: DiffMarker,
    subject: Seq<char>,
    resource_type: Option<Seq<char>>,
    current: Option<Seq<char>>,
    proposed: Option<Seq<char>>,
) -> bool {
    &&& e.marker == marker
    &&& e.subject@ == subject
    &&& option_text(e.resource_type) == resource_type
    &&& shows_lines(e.current, current)
    &&& shows_lines(e.proposed, proposed)
}

/// The marker of a change.
pub open spec fn spec_marker(d: DiffData) -> DiffMarker {
    match d {
        DiffData::Create { .. } => DiffMarker::Create,
        DiffData::Update { .. } => DiffMarker::Update,
        DiffData::Delete { .. } => DiffMarker::Delete,
    }
}

/// The current text of a change, where it has one.
pub open spec fn current_text(d: DiffData) -> Option<Seq<char>> {
    match d {
        DiffData::Create { .. } => None,
        DiffData::Update { current, .. } => Some(current@),
        DiffData::Delete { current } => Some(current@),
    }
}

/// The proposed text of a change, where it has one.
pub open spec fn proposed_text(d: DiffData) -> Option<Seq<char>> {
    match d {
        DiffData::Create { proposed, .. } => Some(proposed@),
        DiffData::Update { proposed, .. } => Some(proposed@),
        DiffData::Delete { .. } => None,
    }
}

/// The subject shown for a change of a variable or user group: the name of
/// one that is created, else what happens to it.
pub open spec fn named_subject(kind: NamedKind, d: DiffData) -> Seq<char> {
    match (kind, d) {
        (_, DiffData::Create { name, .. }) => name@,
        (NamedKind::Variable, DiffData::Update { .. }) => "Variable Update"@,
        (NamedKind::Variable, DiffData::Delete { .. }) => "Variable Delete"@,
        (NamedKind::UserGroup, DiffData::Update { .. }) => "User Group Update"@,
        (NamedKind::UserGroup, DiffData::Delete { .. }) => "User Group Delete"@,
    }
}

/// Law: a variable or user group that a sync creates is shown under its own
/// name, whatever its kind; one that is changed or deleted is shown by what
/// happens to it, naming its kind.
pub proof fn law_created_items_show_their_name(kind: NamedKind, d: DiffData)
    ensures
        d matches DiffData::Create { name, .. } ==> named_subject(kind, d) == name@,
        kind == NamedKind::Variable && d is Update ==> named_subject(kind, d) == "Variable Update"@,
        kind == NamedKind::Variable && d is Delete ==> named_subject(kind, d) == "Variable Delete"@,
        kind == NamedKind::UserGroup && d is Update ==> named_subject(kind, d)
            == "User Group Update"@,
        kind == NamedKind::UserGroup && d is Delete ==> named_subject(kind, d)
            == "User Group Delete"@,
{
}

/// The subject shown for a change of a resource: the name of one that is
/// created, else its id.
pub open spec fn resource_subject(d: ResourceDiff) -> Seq<char> {
    match d.data {
        DiffData::Create { name, .. } => name@,
        _ => d.target_id@,
    }
}

/// The lines of the current and proposed texts of a change.
fn sides_of(d: &DiffData) -> (r: (Option<Vec<String>>, Option<Vec<String>>))
    ensures
        shows_lines(r.0, current_text(*d)),
        shows_lines(r.1, proposed_text(*d)),
{
    match d {
        DiffData::Create { proposed, .. } => (None, Some(split_lines(proposed.as_str()))),
        DiffData::Update { proposed, current } => (
            Some(split_lines(current.as_str())),
            Some(split_lines(proposed.as_str())),
        ),
        DiffData::Delete { current } => (Some(split_lines(current.as_str())), None),
    }
}

/// The marker of a change.
fn marker_of(d: &DiffData) -> (m: DiffMarker)
    ensures
        m == spec_marker(*d),
{
    match d {
        DiffData::Create { .. } => DiffMarker::Create,
        DiffData::Update { .. } => DiffMarker::Update,
        DiffData::Delete { .. } => DiffMarker::Delete,
    }
}

/// How a change of a resource is shown: its marker, the name (created) or id
/// (changed, deleted), its kind, and the lines of its texts.
pub fn resource_entry(d: &ResourceDiff) -> (e: DiffEntry)
    ensures
        shows_entry(
            e,
            spec_marker(d.data),
            resource_subject(*d),
            Some(d.target_type@),
            current_text(d.data),
            proposed_text(d.data),
        ),
{
    let subject = match &d.data {
        DiffData::Create { name, .. } => name.clone(),
        _ => d.target_id.clone(),
    };
    let (current, proposed) = sides_of(&d.data);
    DiffEntry {
        marker: marker_of(&d.data),
        subject,
        resource_type: Some(d.target_type.clone()),
        current,
        proposed,
    }
}

/// How a change of a variable or user group is shown: its marker, the name
/// (created) or what happens to it (changed, deleted), and the lines of its
/// texts.
pub fn named_entry(kind: NamedKind, d: &DiffData) -> (e: DiffEntry)
    ensures
        shows_entry(
            e,
            spec_marker(*d),
            named_subject(kind, *d),
            None,
            current_text(*d),
            proposed_text(*d),
        ),
        d matches DiffData::Create { name, .. } ==> e.subject@ == name@,
{
    let subject = match (kind, d) {
        (_, DiffData::Create { name, .. }) => name.clone(),
        (NamedKind::Variable, DiffData::Update { .. }) => String::from_str("Variable Update"),
        (NamedKind::Variable, DiffData::Delete { .. }) => String::from_str("Variable Delete"),
        (NamedKind::UserGroup, DiffData::Update { .. }) => String::from_str("User Group Update"),
        (NamedKind::UserGroup, DiffData::Delete { .. }) => String::from_str("User Group Delete"),
    };
    let (current, proposed) = sides_of(d);
    DiffEntry { marker: marker_of(d), subject, resource_type: None, current, proposed }
}

/// The pending changes of a sync as `km sync diff` shows them, section by
/// section; a section with no changes is left out.
pub struct DiffReport {
    pub resources: Vec<DiffEntry>,
    pub variables: Vec<DiffEntry>,
    pub user_groups: Vec<DiffEntry>,
}

/// `shown` shows each change of `changes` of a resource, in order.
pub open spec fn shows_resources(shown: Seq<DiffEntry>, changes: Seq<ResourceDiff>) -> bool {
    &&& shown.len() == changes.len()
    &&& forall|i: int|
        0 <= i < shown.len() ==> shows_entry(
            #[trigger] shown[i],
            spec_marker(changes[i].data),
            resource_subject(changes[i]),
            Some(changes[i].target_type@),
            current_text(changes[i].data),
            proposed_text(changes[i].data),
        )
}

/// `shown` shows each change of `changes` of a variable or user group, in
/// order.
pub open spec fn shows_named(shown: Seq<DiffEntry>, kind: NamedKind, changes: Seq<DiffData>) -> bool {
    &&& shown.len() == changes.len()
    &&& forall|i: int|
        0 <= i < shown.len() ==> shows_entry(
            #[trigger] shown[i],
            spec_marker(changes[i]),
            named_subject(kind, changes[i]),
            None,
            current_text(changes[i]),
            proposed_text(changes[i]),
        )
}

/// How each change of a resource is shown.
fn resource_entries(changes: &Vec<ResourceDiff>) -> (r: Vec<DiffEntry>)
    ensures
        shows_resources(r@, changes@),
{
    let mut r: Vec<DiffEntry> = Vec::new();
    let mut i: usize = 0;
    while i < changes.len()
        invariant
            i <= changes@.len(),
            shows_resources(r@, changes@.take(i as int)),
        decreases changes@.len() - i,
    {
        let e = resource_entry(&changes[i]);
        r.push(e);
        i = i + 1;
    }
    assert(changes@.take(changes@.len() as int) =~= changes@);
    r
}

/// How each change of a variable or user group is shown.
fn named_entries(kind: NamedKind, changes: &Vec<DiffData>) -> (r: Vec<DiffEntry>)
    ensures
        shows_named(r@, kind, changes@),
{
    let mut r: Vec<DiffEntry> = Vec::new();
    let mut i: usize = 0;
    while i < changes.len()
        invariant
            i <= changes@.len(),
            shows_named(r@, kind, changes@.take(i as int)),
        decreases changes@.len() - i,
    {
        let e = named_entry(kind, &changes[i]);
        r.push(e);
        i = i + 1;
    }
    assert(changes@.take(changes@.len() as int) =~= changes@);
    r
}

/// What `km sync diff` shows: nothing when the sync has no pending change
/// (it then reports that there is none), else each change of a resource, a
/// variable and a user group, in the order Komodo lists them.
pub fn diff_report(
    resources: &Vec<ResourceDiff>,
    variables: &Vec<DiffData>,
    user_groups: &Vec<DiffData>,
) -> (r: Option<DiffReport>)
    ensures
        r is None <==> (resources@.len() == 0 && variables@.len() == 0 && user_groups@.len()
            == 0),
        r matches Some(report) ==> {
            &&& shows_resources(report.resources@, resources@)
            &&& shows_named(report.variables@, NamedKind::Variable, variables@)
            &&& shows_named(report.user_groups@, NamedKind::UserGroup, user_groups@)
        },
{
    if resources.len() == 0 && variables.len() == 0 && user_groups.len() == 0 {
        return None;
    }
    Some(
        DiffReport {
            resources: resource_entries(resources),
            variables: named_entries(NamedKind::Variable, variables),
            user_groups: named_entries(NamedKind::UserGroup, user_groups),
        },
    )
}

} // verus!
