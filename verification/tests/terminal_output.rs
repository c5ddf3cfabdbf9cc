use komodo_cli::marker::exit_code_marker_bytes;
use komodo_cli::terminal::{settle_terminal_output, RemoteCommandExit, TerminalExit, TerminalOutput};

#[test]
fn marker_bytes_are_the_komodo_marker() {
    assert_eq!(exit_code_marker_bytes(), b"__KOMODO_EXIT_CODE:".to_vec());
}

#[test]
fn output_before_marker_is_shown_and_zero_is_success() {
    let out = b"hello\n__KOMODO_EXIT_CODE:0\n";
    assert_eq!(settle_terminal_output(out), TerminalOutput { shown: 6, exit: TerminalExit::Success });
}

#[test]
fn non_zero_and_negative_codes_are_failures() {
    assert_eq!(
        settle_terminal_output(b"oops\n__KOMODO_EXIT_CODE:3\n").exit,
        TerminalExit::Failed(3)
    );
    assert_eq!(
        settle_terminal_output(b"__KOMODO_EXIT_CODE:-1\r\n").exit,
        TerminalExit::Failed(-1)
    );
    assert_eq!(
        settle_terminal_output(b"__KOMODO_EXIT_CODE:127").exit,
        TerminalExit::Failed(127)
    );
}

#[test]
fn output_without_marker_is_all_shown() {
    let out = b"just text\n";
    assert_eq!(
        settle_terminal_output(out),
        TerminalOutput { shown: out.len(), exit: TerminalExit::MissingMarker }
    );
}

#[test]
fn text_after_marker_that_is_no_number_is_invalid() {
    assert_eq!(
        settle_terminal_output(b"x__KOMODO_EXIT_CODE:abc\n"),
        TerminalOutput { shown: 1, exit: TerminalExit::InvalidMarker }
    );
    assert_eq!(
        settle_terminal_output(b"__KOMODO_EXIT_CODE:\n0\n").exit,
        TerminalExit::InvalidMarker
    );
}

#[test]
fn the_last_marker_decides() {
    let out = b"echo __KOMODO_EXIT_CODE:5\nmore\n__KOMODO_EXIT_CODE:0\n";
    let settled = settle_terminal_output(out);
    assert_eq!(settled.shown, out.len() - b"__KOMODO_EXIT_CODE:0\n".len());
    assert_eq!(settled.exit, TerminalExit::Success);
}

#[test]
fn output_then_exit_line_recovers_output_and_code() {
    for code in [0i32, 1, -3, 255, i32::MAX, i32::MIN] {
        let text = b"line one\n__KOMODO_EXIT_CODE:9 (printed by the command)\nline two\n".to_vec();
        let mut out = text.clone();
        out.extend_from_slice(format!("__KOMODO_EXIT_CODE:{code}\n").as_bytes());
        let settled = settle_terminal_output(&out);
        assert_eq!(settled.shown, text.len());
        let expected = if code == 0 { TerminalExit::Success } else { TerminalExit::Failed(code) };
        assert_eq!(settled.exit, expected);
    }
}

#[test]
fn remote_command_exit_carries_its_code() {
    let e = RemoteCommandExit::new(42);
    assert_eq!(e.code(), 42);
    assert_eq!(e.message(), "remote command exited with code 42");
    assert_eq!(RemoteCommandExit::new(-2).message(), "remote command exited with code -2");
}

#[test]
fn failure_messages_name_the_outcome() {
    assert_eq!(TerminalExit::Success.failure_message(), None);
    assert_eq!(
        TerminalExit::Failed(7).failure_message().unwrap(),
        "remote command exited with code 7"
    );
    assert_eq!(
        TerminalExit::MissingMarker.failure_message().unwrap(),
        "Terminal output closed without an exit code marker"
    );
    assert_eq!(
        TerminalExit::InvalidMarker.failure_message().unwrap(),
        "Invalid terminal exit code marker"
    );
}
