use komodo_cli::shell_stream::{malformed_marker_message, ShellExit, ShellOutputFilter};

/// Runs the filter over the chunks the way `km shell` does and returns what it
/// shows and how the command ended (None where a marker is malformed).
fn run_filter(chunks: &[&[u8]]) -> (Vec<u8>, Option<ShellExit>) {
    let mut filter = ShellOutputFilter::new();
    let mut shown = Vec::new();
    for chunk in chunks {
        let fed = filter.feed(chunk);
        shown.extend_from_slice(&fed.shown);
        if fed.malformed {
            return (shown, None);
        }
        assert!(!filter.release_splits_char());
        shown.extend_from_slice(&filter.release());
    }
    let finished = filter.finish();
    shown.extend_from_slice(&finished.shown);
    if finished.malformed {
        return (shown, None);
    }
    (shown, Some(finished.exit))
}

#[test]
fn single_chunk_with_exit_line() {
    let (shown, exit) = run_filter(&[b"hi\n__KOMODO_EXIT_CODE:0\n"]);
    assert_eq!(shown, b"hi\n".to_vec());
    assert_eq!(exit, Some(ShellExit::Success));
}

#[test]
fn marker_split_across_chunks_is_still_found() {
    let (shown, exit) = run_filter(&[b"out", b"__KOMODO_EX", b"IT_CODE:5\nrest"]);
    assert_eq!(shown, b"outrest".to_vec());
    assert_eq!(exit, Some(ShellExit::Failed(5)));
}

#[test]
fn marker_line_cut_anywhere() {
    let text = b"first line\nsecond line of the command output\n";
    let mut whole = text.to_vec();
    whole.extend_from_slice(b"__KOMODO_EXIT_CODE:17\n");
    for p in 0..=whole.len() {
        let (shown, exit) = run_filter(&[&whole[..p], &whole[p..]]);
        assert_eq!(shown, text.to_vec(), "cut at {p}");
        assert_eq!(exit, Some(ShellExit::Failed(17)), "cut at {p}");
    }
}

#[test]
fn marker_not_followed_by_a_code_is_shown() {
    let (shown, exit) = run_filter(&[b"printf __KOMODO_EXIT_CODE:%d\n", b"__KOMODO_EXIT_CODE:0\n"]);
    assert_eq!(shown, b"printf __KOMODO_EXIT_CODE:%d\n".to_vec());
    assert_eq!(exit, Some(ShellExit::Success));
}

#[test]
fn stream_without_marker_is_shown_unchanged() {
    let chunks: [&[u8]; 3] = [
        b"a long first chunk of output that is longer than the held-back part\n",
        b"short\n",
        b"and a last one without any marker in it at all\n",
    ];
    let (shown, exit) = run_filter(&chunks);
    assert_eq!(shown, chunks.concat());
    assert_eq!(exit, Some(ShellExit::MissingMarker));
}

#[test]
fn text_after_the_code_on_its_line_is_dropped() {
    let (shown, exit) = run_filter(&[b"x__KOMODO_EXIT_CODE:2 trailing\nnext\n"]);
    assert_eq!(shown, b"xnext\n".to_vec());
    assert_eq!(exit, Some(ShellExit::Failed(2)));
}

#[test]
fn the_last_code_read_wins() {
    let (_, exit) = run_filter(&[b"__KOMODO_EXIT_CODE:1\n", b"__KOMODO_EXIT_CODE:0\n"]);
    assert_eq!(exit, Some(ShellExit::Success));
}

#[test]
fn malformed_code_stops_the_stream() {
    let (shown, exit) = run_filter(&[b"ok\n__KOMODO_EXIT_CODE:1-2\n"]);
    assert_eq!(shown, b"ok\n".to_vec());
    assert_eq!(exit, None);
    assert_eq!(malformed_marker_message(), "Failed to parse shell exit code marker");
}

#[test]
fn marker_at_the_end_waits_for_its_code() {
    let mut filter = ShellOutputFilter::new();
    let fed = filter.feed(b"text__KOMODO_EXIT_CODE:");
    assert_eq!(fed.shown, b"text".to_vec());
    assert!(!fed.malformed);
    let finished = filter.finish();
    assert!(finished.shown.is_empty());
    assert_eq!(finished.exit, ShellExit::MissingMarker);
}

#[test]
fn release_keeps_back_thirty_five_bytes() {
    let mut filter = ShellOutputFilter::new();
    let input = vec![b'a'; 50];
    let fed = filter.feed(&input);
    assert!(fed.shown.is_empty());
    assert_eq!(filter.release(), vec![b'a'; 15]);
    assert_eq!(filter.release(), Vec::<u8>::new());
    assert_eq!(filter.finish().shown, vec![b'a'; 35]);
}

#[test]
fn release_that_would_cut_a_character_is_detected() {
    let mut filter = ShellOutputFilter::new();
    // 'é' is two bytes: the byte 35 from the end is a continuation byte.
    let text = "é".repeat(20);
    filter.feed(text.as_bytes());
    assert!(filter.release_splits_char());
    let mut even = ShellOutputFilter::new();
    even.feed(format!("{text}x").as_bytes());
    assert!(!even.release_splits_char());
}

#[test]
fn shell_exit_messages() {
    assert_eq!(ShellExit::Success.failure_message(), None);
    assert_eq!(
        ShellExit::Failed(3).failure_message().unwrap(),
        "Shell command exited with non-zero code: 3"
    );
    assert_eq!(
        ShellExit::MissingMarker.failure_message().unwrap(),
        "Shell output closed without an exit code marker"
    );
}

#[test]
fn code_split_inside_its_digits_is_read_whole() {
    let (shown, exit) = run_filter(&[b"__KOMODO_EXIT_CODE:1", b"27\n"]);
    assert_eq!(shown, Vec::<u8>::new());
    assert_eq!(exit, Some(ShellExit::Failed(127)));
    let (shown, exit) = run_filter(&[b"out\n__KOMODO_EXIT_CODE:-", b"1", b"", b"\n"]);
    assert_eq!(shown, b"out\n".to_vec());
    assert_eq!(exit, Some(ShellExit::Failed(-1)));
}

#[test]
fn marker_line_in_three_chunks_cut_anywhere() {
    let text = b"abc\n";
    let mut whole = text.to_vec();
    whole.extend_from_slice(b"__KOMODO_EXIT_CODE:255\n");
    for p in 0..=whole.len() {
        for q in p..=whole.len() {
            let (shown, exit) = run_filter(&[&whole[..p], &whole[p..q], &whole[q..]]);
            assert_eq!(shown, text.to_vec(), "cuts at {p}, {q}");
            assert_eq!(exit, Some(ShellExit::Failed(255)), "cuts at {p}, {q}");
        }
    }
}

#[test]
fn a_long_pending_marker_line_is_held_back_whole() {
    let (shown, exit) =
        run_filter(&[b"__KOMODO_EXIT_CODE:3 and a long tail that has no line break yet", b"\nafter\n"]);
    assert_eq!(shown, b"after\n".to_vec());
    assert_eq!(exit, Some(ShellExit::Failed(3)));
}

#[test]
fn the_end_of_the_stream_ends_a_pending_marker_line() {
    let (shown, exit) = run_filter(&[b"done\n__KOMODO_EXIT_CODE:0"]);
    assert_eq!(shown, b"done\n".to_vec());
    assert_eq!(exit, Some(ShellExit::Success));
    let (_, exit) = run_filter(&[b"__KOMODO_EXIT_CODE:4", b"2"]);
    assert_eq!(exit, Some(ShellExit::Failed(42)));
    let (_, exit) = run_filter(&[b"__KOMODO_EXIT_CODE:1-2"]);
    assert_eq!(exit, None);
}
