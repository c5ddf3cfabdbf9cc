use komodo_cli::diff::{
    diff_report, marker_char, named_entry, resource_entry, split_lines, DiffData, DiffMarker,
    NamedKind, ResourceDiff,
};

fn lines(v: &[&str]) -> Vec<String> {
    v.iter().map(|s| s.to_string()).collect()
}

#[test]
fn split_lines_follows_str_lines() {
    let cases = [
        "",
        "a",
        "a\n",
        "\n",
        "\n\n",
        "a\r\nb",
        "a\rb",
        "foo\nbar\n\r\nbaz\r",
        "x\r",
        "x\r\n",
        "é\nü\r\n",
        "  indented\n\ttab",
    ];
    for case in cases {
        let expected: Vec<String> = case.lines().map(|s| s.to_string()).collect();
        assert_eq!(split_lines(case), expected, "{:?}", case);
    }
}

#[test]
fn split_lines_keeps_a_final_bare_carriage_return() {
    assert_eq!(split_lines("foo\nbar\n\r\nbaz\r"), lines(&["foo", "bar", "", "baz\r"]));
    assert_eq!(split_lines(""), Vec::<String>::new());
    assert_eq!(split_lines("a\n\nb\n"), lines(&["a", "", "b"]));
}

#[test]
fn markers_of_changes() {
    assert_eq!(marker_char(DiffMarker::Create), '+');
    assert_eq!(marker_char(DiffMarker::Update), '~');
    assert_eq!(marker_char(DiffMarker::Delete), '-');
}

#[test]
fn no_pending_change_shows_nothing() {
    assert!(diff_report(&vec![], &vec![], &vec![]).is_none());
}

#[test]
fn created_resource_shows_its_name_kind_and_proposal() {
    let d = ResourceDiff {
        target_type: "Stack".to_string(),
        target_id: "".to_string(),
        data: DiffData::Create { name: "web".to_string(), proposed: "[[stack]]\nname = \"web\"\n".to_string() },
    };
    let e = resource_entry(&d);
    assert_eq!(e.marker, DiffMarker::Create);
    assert_eq!(e.subject, "web");
    assert_eq!(e.resource_type.as_deref(), Some("Stack"));
    assert!(e.current.is_none());
    assert_eq!(e.proposed, Some(lines(&["[[stack]]", "name = \"web\""])));
}

#[test]
fn updated_resource_shows_its_id_and_both_texts() {
    let d = ResourceDiff {
        target_type: "Server".to_string(),
        target_id: "65f0a1".to_string(),
        data: DiffData::Update { proposed: "b = 2".to_string(), current: "a = 1\r\nb = 1".to_string() },
    };
    let e = resource_entry(&d);
    assert_eq!(e.marker, DiffMarker::Update);
    assert_eq!(e.subject, "65f0a1");
    assert_eq!(e.resource_type.as_deref(), Some("Server"));
    assert_eq!(e.current, Some(lines(&["a = 1", "b = 1"])));
    assert_eq!(e.proposed, Some(lines(&["b = 2"])));
}

#[test]
fn deleted_resource_shows_its_id_and_current_text() {
    let d = ResourceDiff {
        target_type: "Build".to_string(),
        target_id: "b1".to_string(),
        data: DiffData::Delete { current: "x".to_string() },
    };
    let e = resource_entry(&d);
    assert_eq!(e.marker, DiffMarker::Delete);
    assert_eq!(e.subject, "b1");
    assert_eq!(e.current, Some(lines(&["x"])));
    assert!(e.proposed.is_none());
}

#[test]
fn variable_and_group_changes_are_titled_by_what_happens() {
    let update = DiffData::Update { proposed: "2".to_string(), current: "1".to_string() };
    let delete = DiffData::Delete { current: "1".to_string() };
    let create = DiffData::Create { name: "PORT".to_string(), proposed: "8080".to_string() };
    assert_eq!(named_entry(NamedKind::Variable, &update).subject, "Variable Update");
    assert_eq!(named_entry(NamedKind::Variable, &delete).subject, "Variable Delete");
    assert_eq!(named_entry(NamedKind::UserGroup, &update).subject, "User Group Update");
    assert_eq!(named_entry(NamedKind::UserGroup, &delete).subject, "User Group Delete");
    let e = named_entry(NamedKind::Variable, &create);
    assert_eq!(e.subject, "PORT");
    assert_eq!(e.marker, DiffMarker::Create);
    assert!(e.resource_type.is_none());
    assert_eq!(e.proposed, Some(lines(&["8080"])));
}

#[test]
fn report_keeps_each_section_in_order() {
    let variables = vec![
        DiffData::Create { name: "A".to_string(), proposed: "1".to_string() },
        DiffData::Delete { current: "2".to_string() },
    ];
    let report = diff_report(&vec![], &variables, &vec![]).expect("pending changes");
    assert!(report.resources.is_empty());
    assert!(report.user_groups.is_empty());
    assert_eq!(report.variables.len(), 2);
    assert_eq!(report.variables[0].subject, "A");
    assert_eq!(report.variables[1].subject, "Variable Delete");
    assert_eq!(report.variables[1].marker, DiffMarker::Delete);
}
