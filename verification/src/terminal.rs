//! Reading the output of a one-shot terminal command (`km exec`): the text
//! before the last exit-code marker is the command's output, and the line
//! after the marker holds its exit code.
use vstd::prelude::*;
use vstd::slice::slice_subrange;

use crate::decimal::{
    ascii_chars, int_decimal, is_digit, law_decimal_text_reads_back, parse_i32, parse_i32_spec,
    push_i32_str,
};
use crate::marker::{
    exit_code_marker, exit_code_marker_bytes, lemma_int_decimal_bytes, lemma_marker_line_occurrence,
    marker_line,
};
use crate::search::{occurs_at, find_last, last_upto, lemma_find_last, lemma_find_last_at, matches_at};

verus! {

/// A remote command finished with a non-zero exit code.
#[derive(Debug)]
pub struct RemoteCommandExit {
    code: i32,
}

impl RemoteCommandExit {
    /// The exit code that this error carries.
    pub closed spec fn spec_code(&self) -> i32 {
        self.code
    }

    /// An error for a remote command that exited with `code`.
    pub fn new(code: i32) -> (r: Self)
        ensures
            r.spec_code() == code,
    {
        Self { code }
    }

    /// The remote command's exit code.
    pub fn code(&self) -> (r: i32)
        ensures
            r == self.spec_code(),
    {
        self.code
    }

    /// `remote command exited with code <code>`.
    pub fn message(&self) -> (r: String)
        ensures
            r@ == "remote command exited with code "@ + ascii_chars(
                int_decimal(self.spec_code() as int),
            ),
    {
        let mut s = String::from_str("remote command exited with code ");
        push_i32_str(&mut s, self.code);
        s
    }
}

/// How a one-shot terminal command ended, as read from its output.
#[derive(Debug, Clone, Copy, PartialEq, Eq, Structural)]
pub enum TerminalExit {
    /// The marker reports exit code 0.
    Success,
    /// The marker reports this non-zero exit code.
    Failed(i32),
    /// The output holds no exit-code marker.
    MissingMarker,
    /// The text after the last marker is not an exit code.
    InvalidMarker,
}

/// The result of reading a one-shot command's output.
#[derive(Debug, Clone, Copy, PartialEq, Eq, Structural)]
pub struct TerminalOutput {
    /// How many leading bytes of the output are the command's own output.
    pub shown: usize,
    /// How the command ended.
    pub exit: TerminalExit,
}

/// The exit status that an exit code stands for.
pub open spec fn exit_for_code(code: i32) -> TerminalExit {
    if code == 0 {
        TerminalExit::Success
    } else {
        TerminalExit::Failed(code)
    }
}

/// The length of the first line of `s`: up to its first `\n` or `\r`.
pub open spec fn line_end(s: Seq<u8>) -> nat
    decreases s.len(),
{
    if s.len() == 0 || s[0] == 10u8 || s[0] == 13u8 {
        0
    } else {
        1 + line_end(s.drop_first())
    }
}

/// The first line of `s`, without its line break.
pub open spec fn first_line(s: Seq<u8>) -> Seq<u8> {
    s.take(line_end(s) as int)
}

/// What a one-shot command's collected output means: where the last marker
/// starts (or the whole output when there is none) and how the command ended.
pub open spec fn terminal_outcome(output: Seq<u8>) -> (int, TerminalExit) {
    match find_last(output, exit_code_marker()) {
        None => (output.len() as int, TerminalExit::MissingMarker),
        Some(at) => (
            at,
            match parse_i32_spec(first_line(output.skip(at + exit_code_marker().len()))) {
                Some(code) => exit_for_code(code),
                None => TerminalExit::InvalidMarker,
            },
        ),
    }
}

/// The position of the last occurrence of a non-empty `needle` in
/// `haystack`, as `haystack.windows(needle.len()).rposition(..)` finds it.
pub fn find_last_subslice(haystack: &[u8], needle: &[u8]) -> (r: Option<usize>)
    requires
        needle@.len() > 0,
    ensures
        match r {
            Some(k) => find_last(haystack@, needle@) == Some(k as int),
            None => find_last(haystack@, needle@) is None,
        },
{
    if needle.len() > haystack.len() {
        assert(last_upto(haystack@, needle@, haystack@.len() - needle@.len()) is None);
        return None;
    }
    let mut i: usize = haystack.len() - needle.len();
    loop
        invariant
            i + needle@.len() <= haystack@.len(),
            find_last(haystack@, needle@) == last_upto(haystack@, needle@, i as int),
        decreases i,
    {
        if matches_at(haystack, needle, i) {
            return Some(i);
        }
        if i == 0 {
            assert(last_upto(haystack@, needle@, -1) is None);
            return None;
        }
        i = i - 1;
    }
}

/// The length of the first line of `s`.
fn first_line_len(s: &[u8]) -> (r: usize)
    ensures
        r == line_end(s@),
        r <= s@.len(),
{
    let mut i: usize = 0;
    assert(s@.skip(0) =~= s@);
    while i < s.len()
        invariant
            i <= s@.len(),
            line_end(s@) == i + line_end(s@.skip(i as int)),
        decreases s@.len() - i,
    {
        if s[i] == 10u8 || s[i] == 13u8 {
            assert(line_end(s@.skip(i as int)) == 0);
            return i;
        }
        assert(s@.skip(i as int).drop_first() =~= s@.skip(i + 1));
        i = i + 1;
    }
    assert(line_end(s@.skip(i as int)) == 0);
    i
}

/// Reads a one-shot command's collected output: the command's own output is
/// everything before the last exit-code marker, and the first line after
/// that marker holds the exit code.
pub fn settle_terminal_output(output: &[u8]) -> (r: TerminalOutput)
    ensures
        (r.shown as int, r.exit) == terminal_outcome(output@),
{
    let marker = exit_code_marker_bytes();
    let n = output.len();
    match find_last_subslice(output, marker.as_slice()) {
        None => TerminalOutput { shown: output.len(), exit: TerminalExit::MissingMarker },
        Some(at) => {
            proof {
                lemma_find_last(output@, exit_code_marker());
                assert(marker@ == exit_code_marker());
                assert(occurs_at(output@, exit_code_marker(), at as int));
                assert(marker.len() == exit_code_marker().len());
            }
            let rest = slice_subrange(output, at + marker.len(), n);
            assert(rest@ =~= output@.skip(at + exit_code_marker().len()));
            let end = first_line_len(rest);
            let line = slice_subrange(rest, 0, end);
            assert(line@ =~= first_line(rest@));
            let exit = match parse_i32(line) {
                Some(code) => if code == 0 {
                    TerminalExit::Success
                } else {
                    TerminalExit::Failed(code)
                },
                None => TerminalExit::InvalidMarker,
            };
            TerminalOutput { shown: at, exit }
        },
    }
}

impl TerminalExit {
    /// The error text that the CLI reports for an outcome other than success.
    pub fn failure_message(&self) -> (r: Option<String>)
        ensures
            match *self {
                TerminalExit::Success => r is None,
                TerminalExit::Failed(code) => r matches Some(m) && m@
                    == "remote command exited with code "@ + ascii_chars(
                    int_decimal(code as int),
                ),
                TerminalExit::MissingMarker => r matches Some(m) && m@
                    == "Terminal output closed without an exit code marker"@,
                TerminalExit::InvalidMarker => r matches Some(m) && m@
                    == "Invalid terminal exit code marker"@,
            },
    {
        match *self {
            TerminalExit::Success => None,
            TerminalExit::Failed(code) => Some(RemoteCommandExit::new(code).message()),
            TerminalExit::MissingMarker => Some(
                String::from_str("Terminal output closed without an exit code marker"),
            ),
            TerminalExit::InvalidMarker => Some(String::from_str("Invalid terminal exit code marker")),
        }
    }
}

/// A line without line breaks, followed by `\n`, ends where the `\n` is.
proof fn lemma_line_end_before_newline(s: Seq<u8>)
    requires
        forall|i: int| 0 <= i < s.len() ==> #[trigger] s[i] != 10u8 && s[i] != 13u8,
    ensures
        line_end(s + seq![10u8]) == s.len(),
    decreases s.len(),
{
    if s.len() > 0 {
        let t = s.drop_first();
        assert forall|i: int| 0 <= i < t.len() implies #[trigger] t[i] != 10u8 && t[i] != 13u8 by {
            assert(t[i] == s[i + 1]);
        }
        lemma_line_end_before_newline(t);
        assert((s + seq![10u8]).drop_first() =~= t + seq![10u8]);
        assert((s + seq![10u8])[0] == s[0]);
    }
}

/// The first line after the marker is the decimal text of the code.
proof fn lemma_first_line_of_code(code: i32)
    ensures
        first_line(int_decimal(code as int) + seq![10u8]) == int_decimal(code as int),
{
    let d = int_decimal(code as int);
    lemma_int_decimal_bytes(code as int);
    assert forall|i: int| 0 <= i < d.len() implies #[trigger] d[i] != 10u8 && d[i] != 13u8 by {
        assert(is_digit(d[i]) || d[i] == 45u8);
    }
    lemma_line_end_before_newline(d);
    assert((d + seq![10u8]).take(d.len() as int) =~= d);
}

/// Whatever a command printed, when its output ends with an exit-code line,
/// all of that output is shown and the exit code is read back exactly: the
/// command succeeded when the code is 0, and failed with that very code
/// otherwise.
pub proof fn law_output_then_exit_line(text: Seq<u8>, code: i32)
    ensures
        terminal_outcome(text + marker_line(code)) == (text.len() as int, exit_for_code(code)),
        terminal_outcome(text + marker_line(code)).0 == text.len(),
        code == 0 ==> terminal_outcome(text + marker_line(code)).1 == TerminalExit::Success,
        code != 0 ==> terminal_outcome(text + marker_line(code)).1 == TerminalExit::Failed(code),
{
    let h = text + marker_line(code);
    lemma_marker_line_occurrence(text, code);
    lemma_find_last_at(h, exit_code_marker(), text.len() as int);
    let rest = h.skip(text.len() + 19int);
    assert(rest =~= int_decimal(code as int) + seq![10u8]);
    lemma_first_line_of_code(code);
    law_decimal_text_reads_back(code);
    assert(code == 0 ==> exit_for_code(code) == TerminalExit::Success);
    assert(code != 0 ==> exit_for_code(code) == TerminalExit::Failed(code));
}

} // verus!
