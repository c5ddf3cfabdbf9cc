//! Filtering the streamed output of `km shell`: output is passed on as it
//! arrives, while exit-code markers are taken out of it and read, even when a
//! marker arrives split across chunks.
use vstd::prelude::*;
use vstd::slice::{slice_subrange, slice_to_vec};

use crate::decimal::{
    ascii_chars, int_decimal, is_digit, law_decimal_text_reads_back, parse_i32, parse_i32_spec,
    push_i32_str,
};
use crate::shell::ShellCommandExit;
use crate::marker::{
    exit_code_marker, lemma_int_decimal_bytes, lemma_marker_line_bytes, lemma_marker_line_occurrence,
    lemma_marker_underscores, marker_line,
};
use crate::marker::exit_code_marker_bytes;
use crate::search::{
    contains, contains_subslice, find_first, find_first_subslice, lemma_find_first,
    lemma_find_first_at, occurs_at,
};

verus! {

/// How many bytes the filter holds back, so that a marker split across
/// chunks is still recognised: the marker's length and 16 more.
pub open spec fn held_back() -> int {
    exit_code_marker().len() + 16int
}

/// A byte that may belong to the exit code after a marker: a digit or `-`.
pub open spec fn is_code_byte(b: u8) -> bool {
    is_digit(b) || b == 45u8
}

/// How many leading bytes of `s` may belong to an exit code.
pub open spec fn code_run(s: Seq<u8>) -> nat
    decreases s.len(),
{
    if s.len() > 0 && is_code_byte(s[0]) {
        1 + code_run(s.drop_first())
    } else {
        0
    }
}

/// What one pass over the held-back text produces.
pub struct Scan {
    /// The bytes that are passed on.
    pub shown: Seq<u8>,
    /// The bytes held back afterwards.
    pub tail: Seq<u8>,
    /// The last exit code read so far.
    pub exit_code: Option<i32>,
    /// A marker was followed by text that is not an `i32`.
    pub malformed: bool,
}

/// `s` with `prefix` shown before what it shows.
pub open spec fn shown_after(prefix: Seq<u8>, s: Scan) -> Scan {
    Scan { shown: prefix + s.shown, ..s }
}

/// A run of code bytes is never longer than the text it starts.
pub proof fn lemma_code_run_len(s: Seq<u8>)
    ensures
        code_run(s) <= s.len(),
    decreases s.len(),
{
    if s.len() > 0 && is_code_byte(s[0]) {
        lemma_code_run_len(s.drop_first());
    }
}

/// Where the text after an exit code resumes: after the end of its line, or
/// nowhere when the line has not ended yet.
pub open spec fn after_code_line(rest: Seq<u8>) -> Seq<u8> {
    match find_first(rest, seq![10u8]) {
        Some(k) => rest.skip(k + 1),
        None => Seq::empty(),
    }
}

/// One pass over the held-back text: every marker in it is taken out. Text
/// before a marker is shown; a marker not followed by a digit or `-` is shown
/// as it is; a marker followed by an exit code and the end of its line records
/// that code and drops the whole line. A marker whose line has not ended yet
/// is held back with the rest of the text, since more of its code may still
/// come; at the end of the stream (`ends`), the end of the text ends the line.
pub open spec fn scan(tail: Seq<u8>, exit_code: Option<i32>, ends: bool) -> Scan
    decreases tail.len(),
{
    let m = exit_code_marker();
    match find_first(tail, m) {
        None => Scan { shown: Seq::empty(), tail, exit_code, malformed: false },
        Some(s) => {
            proof {
                lemma_find_first(tail, m);
            }
            let before = tail.take(s);
            let after = tail.skip(s + m.len());
            if after.len() == 0 {
                Scan { shown: before, tail: tail.skip(s), exit_code, malformed: false }
            } else if !is_code_byte(after[0]) {
                shown_after(before + m, scan(after, exit_code, ends))
            } else {
                let d = code_run(after);
                proof {
                    lemma_code_run_len(after);
                }
                let rest = after.skip(d as int);
                if find_first(rest, seq![10u8]) is None && !ends {
                    Scan { shown: before, tail: tail.skip(s), exit_code, malformed: false }
                } else {
                    match parse_i32_spec(after.take(d as int)) {
                        None => Scan { shown: before, tail, exit_code, malformed: true },
                        Some(code) => {
                            proof {
                                lemma_find_first(rest, seq![10u8]);
                            }
                            shown_after(before, scan(after_code_line(rest), Some(code), ends))
                        },
                    }
                }
            }
        },
    }
}

/// How many held-back bytes can be passed on now: none while a marker line
/// waits for its end.
pub open spec fn release_len(tail: Seq<u8>) -> int {
    if tail.len() > held_back() && !contains(tail, exit_code_marker()) {
        tail.len() - held_back()
    } else {
        0
    }
}

/// A UTF-8 continuation byte: a position holding one is not a character
/// boundary.
pub open spec fn is_continuation_byte(b: u8) -> bool {
    0x80 <= b <= 0xbf
}

/// Passing on held-back text now would cut a character in two, which
/// slicing a `str` at that position does not allow.
pub open spec fn release_splits_char(tail: Seq<u8>) -> bool {
    release_len(tail) > 0 && is_continuation_byte(tail[release_len(tail)])
}

/// How a `km shell` command ended.
#[derive(Debug, Clone, Copy, PartialEq, Eq, Structural)]
pub enum ShellExit {
    /// The last marker reports exit code 0.
    Success,
    /// The last marker reports this non-zero exit code.
    Failed(i32),
    /// No marker with an exit code was seen.
    MissingMarker,
}

/// The exit status for the last exit code seen, if any.
pub open spec fn shell_exit(exit_code: Option<i32>) -> ShellExit {
    match exit_code {
        Some(code) => if code == 0 {
            ShellExit::Success
        } else {
            ShellExit::Failed(code)
        },
        None => ShellExit::MissingMarker,
    }
}

/// Law: a finished command succeeded exactly when the last exit code read is
/// 0; any other code is a failure with that very code; without a code, the
/// marker is reported missing.
pub proof fn law_shell_exit_reports_the_code(code: i32)
    ensures
        shell_exit(Some(0i32)) == ShellExit::Success,
        code != 0 ==> shell_exit(Some(code)) == ShellExit::Failed(code),
        shell_exit(Some(code)) == ShellExit::Success <==> code == 0,
        shell_exit(None) == ShellExit::MissingMarker,
{
}

/// What is shown at the end of the stream: the held-back text, unless it is
/// empty or still holds a marker.
pub open spec fn final_shown(tail: Seq<u8>) -> Seq<u8> {
    if tail.len() > 0 && !contains(tail, exit_code_marker()) {
        tail
    } else {
        Seq::empty()
    }
}

impl ShellExit {
    /// The error text that `km shell` reports for an outcome other than
    /// success.
    pub fn failure_message(&self) -> (r: Option<String>)
        ensures
            match *self {
                ShellExit::Success => r is None,
                ShellExit::Failed(code) => r matches Some(m) && m@
                    == "Shell command exited with non-zero code: "@ + ascii_chars(
                    int_decimal(code as int),
                ),
                ShellExit::MissingMarker => r matches Some(m) && m@
                    == "Shell output closed without an exit code marker"@,
            },
    {
        match *self {
            ShellExit::Success => None,
            ShellExit::Failed(code) => Some(ShellCommandExit(code).message()),
            ShellExit::MissingMarker => Some(
                String::from_str("Shell output closed without an exit code marker"),
            ),
        }
    }
}

/// `Failed to parse shell exit code marker`: what `km shell` reports when a
/// marker is followed by text that is not an `i32`.
pub fn malformed_marker_message() -> (r: String)
    ensures
        r@ == "Failed to parse shell exit code marker"@,
{
    String::from_str("Failed to parse shell exit code marker")
}

/// The result of feeding one chunk to the filter.
#[derive(Debug)]
pub struct Fed {
    /// The bytes to show now.
    pub shown: Vec<u8>,
    /// A marker was followed by text that is not an `i32`: reading stops.
    pub malformed: bool,
}

/// The end of the stream.
#[derive(Debug)]
pub struct Finished {
    /// The last bytes to show.
    pub shown: Vec<u8>,
    /// How the command ended.
    pub exit: ShellExit,
    /// A marker line still held back was followed by text that is not an
    /// `i32`.
    pub malformed: bool,
}

/// The state of the output filter: the text held back, and the last exit
/// code read.
#[derive(Debug)]
pub struct ShellOutputFilter {
    tail: Vec<u8>,
    exit_code: Option<i32>,
}

/// Counts the code bytes of `s` that start at `from`.
fn code_run_len(s: &[u8], from: usize) -> (r: usize)
    requires
        from <= s@.len(),
    ensures
        r == code_run(s@.skip(from as int)),
        from + r <= s@.len(),
{
    let mut i = from;
    while i < s.len()
        invariant
            from <= i <= s@.len(),
            code_run(s@.skip(from as int)) == (i - from) + code_run(s@.skip(i as int)),
        decreases s@.len() - i,
    {
        let b = s[i];
        assert(s@.skip(i as int)[0] == b);
        if !((48u8 <= b && b <= 57u8) || b == 45u8) {
            return i - from;
        }
        assert(s@.skip(i as int).drop_first() =~= s@.skip(i + 1));
        i = i + 1;
    }
    assert(s@.skip(i as int).len() == 0);
    i - from
}

/// One pass over the held-back text; see `scan`.
fn scan_tail(input: Vec<u8>, exit_in: Option<i32>, ends: bool) -> (r: (
    Vec<u8>,
    Vec<u8>,
    Option<i32>,
    bool,
))
    ensures
        r.0@ == scan(input@, exit_in, ends).shown,
        r.1@ == scan(input@, exit_in, ends).tail,
        r.2 == scan(input@, exit_in, ends).exit_code,
        r.3 == scan(input@, exit_in, ends).malformed,
{
    let ghost goal = scan(input@, exit_in, ends);
    let marker = exit_code_marker_bytes();
    let newline: Vec<u8> = vec![10u8];
    assert(newline@ =~= seq![10u8]);
    let mut tail = input;
    let mut exit_code = exit_in;
    let mut shown: Vec<u8> = Vec::new();
    assert(goal == shown_after(shown@, scan(tail@, exit_code, ends))) by {
        assert(Seq::<u8>::empty() + goal.shown =~= goal.shown);
    }
    loop
        invariant
            marker@ == exit_code_marker(),
            newline@ == seq![10u8],
            goal == scan(input@, exit_in, ends),
            goal == shown_after(shown@, scan(tail@, exit_code, ends)),
        decreases tail@.len(),
    {
        let ghost cur = tail@;
        let n = tail.len();
        match find_first_subslice(tail.as_slice(), marker.as_slice()) {
            None => {
                assert(find_first(cur, exit_code_marker()) is None);
                assert(scan(cur, exit_code, ends).shown == Seq::<u8>::empty());
                assert(shown@ + Seq::<u8>::empty() =~= shown@);
                assert(shown_after(shown@, scan(cur, exit_code, ends)).shown == shown@);
                assert(goal.shown == shown@);
                return (shown, tail, exit_code, false);
            },
            Some(s) => {
                proof {
                    lemma_find_first(cur, exit_code_marker());
                    assert(occurs_at(cur, exit_code_marker(), s as int));
                }
                let ml = marker.len();
                let before = slice_subrange(tail.as_slice(), 0, s);
                assert(before@ =~= cur.take(s as int));
                let ghost shown0 = shown@;
                shown.extend_from_slice(before);
                let after_start = s + ml;
                if after_start == n {
                    let kept = slice_to_vec(slice_subrange(tail.as_slice(), s, n));
                    assert(kept@ =~= cur.skip(s as int));
                    assert(cur.skip(s + exit_code_marker().len()).len() == 0);
                    return (shown, kept, exit_code, false);
                }
                let first = tail[after_start];
                assert(cur.skip(s + exit_code_marker().len())[0] == first);
                if !((48u8 <= first && first <= 57u8) || first == 45u8) {
                    shown.extend_from_slice(marker.as_slice());
                    let next = slice_to_vec(slice_subrange(tail.as_slice(), after_start, n));
                    assert(next@ =~= cur.skip(s + exit_code_marker().len()));
                    assert(shown@ =~= shown0 + (cur.take(s as int) + exit_code_marker()));
                    assert(scan(cur, exit_code, ends) == shown_after(
                        cur.take(s as int) + exit_code_marker(),
                        scan(next@, exit_code, ends),
                    ));
                    assert(goal.shown =~= shown@ + scan(next@, exit_code, ends).shown);
                    assert(goal == shown_after(shown@, scan(next@, exit_code, ends)));
                    tail = next;
                } else {
                    let d = code_run_len(tail.as_slice(), after_start);
                    let ghost after = cur.skip(s + exit_code_marker().len());
                    assert(cur.skip(after_start as int) =~= after);
                    let rest_start = after_start + d;
                    let rest = slice_subrange(tail.as_slice(), rest_start, n);
                    assert(rest@ =~= after.skip(d as int));
                    let line_end = find_first_subslice(rest, newline.as_slice());
                    if line_end.is_none() && !ends {
                        let kept = slice_to_vec(slice_subrange(tail.as_slice(), s, n));
                        assert(kept@ =~= cur.skip(s as int));
                        assert(goal.shown =~= shown@);
                        return (shown, kept, exit_code, false);
                    }
                    let code_text = slice_subrange(tail.as_slice(), after_start, after_start + d);
                    assert(code_text@ =~= after.take(d as int));
                    match parse_i32(code_text) {
                        None => {
                            assert(goal.shown =~= shown@);
                            return (shown, tail, exit_code, true);
                        },
                        Some(code) => {
                            let next = match line_end {
                                Some(k) => {
                                    proof {
                                        lemma_find_first(rest@, seq![10u8]);
                                    }
                                    let v = slice_to_vec(slice_subrange(rest, k + 1, rest.len()));
                                    assert(v@ =~= rest@.skip(k + 1));
                                    v
                                },
                                None => Vec::new(),
                            };
                            assert(next@ =~= after_code_line(rest@));
                            assert(scan(cur, exit_code, ends) == shown_after(
                                cur.take(s as int),
                                scan(next@, Some(code), ends),
                            ));
                            assert(shown@ =~= shown0 + cur.take(s as int));
                            assert(goal.shown =~= shown@ + scan(next@, Some(code), ends).shown);
                            assert(goal == shown_after(shown@, scan(next@, Some(code), ends)));
                            tail = next;
                            exit_code = Some(code);
                        },
                    }
                }
            },
        }
    }
}

impl ShellOutputFilter {
    /// The held-back text.
    pub closed spec fn spec_tail(&self) -> Seq<u8> {
        self.tail@
    }

    /// The last exit code read.
    pub closed spec fn spec_exit_code(&self) -> Option<i32> {
        self.exit_code
    }

    /// A filter that holds nothing back and has read no exit code.
    pub fn new() -> (r: Self)
        ensures
            r.spec_tail() == Seq::<u8>::empty(),
            r.spec_exit_code() is None,
    {
        Self { tail: Vec::new(), exit_code: None }
    }

    /// Takes in the next chunk of output (already decoded to UTF-8) and says
    /// what to show now; see `scan`.
    pub fn feed(&mut self, chunk: &[u8]) -> (r: Fed)
        ensures
            r.shown@ == scan(
                old(self).spec_tail() + chunk@,
                old(self).spec_exit_code(),
                false,
            ).shown,
            r.malformed == scan(
                old(self).spec_tail() + chunk@,
                old(self).spec_exit_code(),
                false,
            ).malformed,
            final(self).spec_tail() == scan(
                old(self).spec_tail() + chunk@,
                old(self).spec_exit_code(),
                false,
            ).tail,
            final(self).spec_exit_code() == scan(
                old(self).spec_tail() + chunk@,
                old(self).spec_exit_code(),
                false,
            ).exit_code,
    {
        let mut tail = slice_to_vec(self.tail.as_slice());
        let ghost old_tail = tail@;
        tail.extend_from_slice(chunk);
        assert(tail@ =~= old_tail + chunk@);
        let (shown, tail, exit_code, malformed) = scan_tail(tail, self.exit_code, false);
        self.tail = tail;
        self.exit_code = exit_code;
        Fed { shown, malformed }
    }

    /// Whether the held-back text may be passed on now: it is longer than
    /// `held_back()` and holds no marker line waiting for its end.
    fn may_release(&self) -> (r: bool)
        ensures
            r == (self.spec_tail().len() > held_back() && !contains(
                self.spec_tail(),
                exit_code_marker(),
            )),
    {
        proof {
            lemma_marker_underscores();
        }
        let marker = exit_code_marker_bytes();
        self.tail.len() > 35 && !contains_subslice(self.tail.as_slice(), marker.as_slice())
    }

    /// Whether passing on the held-back text now would cut a character.
    pub fn release_splits_char(&self) -> (r: bool)
        ensures
            r == release_splits_char(self.spec_tail()),
    {
        if self.may_release() {
            let n = self.tail.len();
            let b = self.tail[n - 35];
            0x80u8 <= b && b <= 0xbfu8
        } else {
            false
        }
    }

    /// Passes on all held-back text but the last `held_back()` bytes, unless a
    /// marker line waits for its end.
    pub fn release(&mut self) -> (r: Vec<u8>)
        requires
            !release_splits_char(old(self).spec_tail()),
        ensures
            r@ == old(self).spec_tail().take(release_len(old(self).spec_tail())),
            final(self).spec_tail() == old(self).spec_tail().skip(
                release_len(old(self).spec_tail()),
            ),
            final(self).spec_exit_code() == old(self).spec_exit_code(),
    {
        if self.may_release() {
            let n = self.tail.len();
            let k = n - 35;
            let shown = slice_to_vec(slice_subrange(self.tail.as_slice(), 0, k));
            let kept = slice_to_vec(slice_subrange(self.tail.as_slice(), k, n));
            self.tail = kept;
            shown
        } else {
            assert(self.tail@.skip(0) =~= self.tail@);
            assert(self.tail@.take(0) =~= Seq::<u8>::empty());
            Vec::new()
        }
    }

    /// The end of the stream: a marker line still held back is read with the
    /// end of the stream as the end of its line; then the last text to show,
    /// and how the command ended.
    pub fn finish(&self) -> (r: Finished)
        ensures
            r.shown@ == scan(self.spec_tail(), self.spec_exit_code(), true).shown + final_shown(
                scan(self.spec_tail(), self.spec_exit_code(), true).tail,
            ),
            r.exit == shell_exit(scan(self.spec_tail(), self.spec_exit_code(), true).exit_code),
            scan(self.spec_tail(), self.spec_exit_code(), true).exit_code == Some(0i32) ==> r.exit
                == ShellExit::Success,
            (match scan(self.spec_tail(), self.spec_exit_code(), true).exit_code {
                Some(c) => c != 0 ==> r.exit == ShellExit::Failed(c),
                None => r.exit == ShellExit::MissingMarker,
            }),
            r.malformed == scan(self.spec_tail(), self.spec_exit_code(), true).malformed,
    {
        let (mut shown, tail, exit_code, malformed) = scan_tail(
            slice_to_vec(self.tail.as_slice()),
            self.exit_code,
            true,
        );
        let marker = exit_code_marker_bytes();
        if tail.len() > 0 && !contains_subslice(tail.as_slice(), marker.as_slice()) {
            shown.extend_from_slice(tail.as_slice());
        }
        proof {
            assert(shown@ =~= scan(self.spec_tail(), self.spec_exit_code(), true).shown
                + final_shown(tail@));
        }
        let exit = match exit_code {
            Some(code) => if code == 0 {
                ShellExit::Success
            } else {
                ShellExit::Failed(code)
            },
            None => ShellExit::MissingMarker,
        };
        Finished { shown, exit, malformed }
    }
}

/// The filter's run over a whole stream: each chunk is fed and then as much
/// held-back text as allowed is passed on. The run stops where the CLI stops:
/// at a malformed exit code, or where passing text on would cut a character.
pub struct Run {
    /// Everything shown so far.
    pub shown: Seq<u8>,
    /// The text held back.
    pub tail: Seq<u8>,
    /// The last exit code read.
    pub exit_code: Option<i32>,
    /// The run stopped early.
    pub stopped: bool,
}

/// One step of a run: the next chunk is fed, then as much held-back text as
/// allowed is passed on.
pub open spec fn run_step(prev: Run, chunk: Seq<u8>) -> Run {
    if prev.stopped {
        prev
    } else {
        let s = scan(prev.tail + chunk, prev.exit_code, false);
        if s.malformed || release_splits_char(s.tail) {
            Run { shown: prev.shown + s.shown, tail: s.tail, exit_code: s.exit_code, stopped: true }
        } else {
            let k = release_len(s.tail);
            Run {
                shown: prev.shown + s.shown + s.tail.take(k),
                tail: s.tail.skip(k),
                exit_code: s.exit_code,
                stopped: false,
            }
        }
    }
}

/// Runs the filter over `chunks`, in order, from a fresh filter.
pub open spec fn run(chunks: Seq<Seq<u8>>) -> Run
    decreases chunks.len(),
{
    if chunks.len() == 0 {
        Run { shown: Seq::empty(), tail: Seq::empty(), exit_code: None, stopped: false }
    } else {
        run_step(run(chunks.drop_last()), chunks.last())
    }
}

/// What `finish` makes of the end of a run.
pub open spec fn run_end(chunks: Seq<Seq<u8>>) -> Scan {
    scan(run(chunks).tail, run(chunks).exit_code, true)
}

/// Everything a complete run shows, the end of the stream included.
pub open spec fn stream_output(chunks: Seq<Seq<u8>>) -> Seq<u8> {
    run(chunks).shown + run_end(chunks).shown + final_shown(run_end(chunks).tail)
}

/// The chunks of a stream joined together.
pub open spec fn joined(chunks: Seq<Seq<u8>>) -> Seq<u8>
    decreases chunks.len(),
{
    if chunks.len() == 0 {
        Seq::empty()
    } else {
        joined(chunks.drop_last()) + chunks.last()
    }
}

/// A marker inside part of a text is a marker inside the whole text.
proof fn lemma_contains_within(a: Seq<u8>, t: Seq<u8>, b: Seq<u8>)
    requires
        contains(t, exit_code_marker()),
    ensures
        contains(a + t + b, exit_code_marker()),
{
    let m = exit_code_marker();
    let j = choose|j: int| occurs_at(t, m, j);
    assert((a + t + b).subrange(a.len() + j, a.len() + j + m.len()) =~= t.subrange(
        j,
        j + m.len(),
    ));
    assert(occurs_at(a + t + b, m, a.len() + j));
}

/// Text without a marker passes through a scan untouched and is held back.
proof fn lemma_scan_without_marker(t: Seq<u8>, e: Option<i32>, ends: bool)
    requires
        !contains(t, exit_code_marker()),
    ensures
        scan(t, e, ends) == (Scan { shown: Seq::empty(), tail: t, exit_code: e, malformed: false }),
{
    lemma_find_first(t, exit_code_marker());
    if find_first(t, exit_code_marker()) is Some {
        assert(occurs_at(t, exit_code_marker(), find_first(t, exit_code_marker())->0));
    }
}

/// While a stream holds no marker, a run shows some prefix of it and holds
/// back the rest.
proof fn lemma_run_without_marker(chunks: Seq<Seq<u8>>)
    requires
        !contains(joined(chunks), exit_code_marker()),
        !run(chunks).stopped,
    ensures
        run(chunks).shown + run(chunks).tail == joined(chunks),
        run(chunks).exit_code is None,
    decreases chunks.len(),
{
    if chunks.len() > 0 {
        let rest = chunks.drop_last();
        let last = chunks.last();
        let prev = run(rest);
        assert(joined(chunks) == joined(rest) + last);
        if contains(joined(rest), exit_code_marker()) {
            lemma_contains_within(Seq::empty(), joined(rest), last);
            assert(Seq::<u8>::empty() + joined(rest) + last =~= joined(chunks));
        }
        lemma_run_without_marker(rest);
        let t = prev.tail + last;
        assert(joined(chunks) =~= prev.shown + t);
        if contains(t, exit_code_marker()) {
            lemma_contains_within(prev.shown, t, Seq::empty());
            assert(prev.shown + t + Seq::<u8>::empty() =~= joined(chunks));
        }
        lemma_scan_without_marker(t, prev.exit_code, false);
        let k = release_len(t);
        assert(prev.shown + Seq::<u8>::empty() + t.take(k) + t.skip(k) =~= joined(chunks));
    }
}

/// Law: a stream that carries no exit-code marker is shown byte for byte, as
/// it came, and the command counts as having ended without an exit code.
pub proof fn law_stream_without_marker_is_shown_unchanged(chunks: Seq<Seq<u8>>)
    requires
        !contains(joined(chunks), exit_code_marker()),
        !run(chunks).stopped,
    ensures
        stream_output(chunks) == joined(chunks),
        shell_exit(run_end(chunks).exit_code) == ShellExit::MissingMarker,
{
    lemma_run_without_marker(chunks);
    let r = run(chunks);
    if contains(r.tail, exit_code_marker()) {
        lemma_contains_within(r.shown, r.tail, Seq::empty());
        assert(r.shown + r.tail + Seq::<u8>::empty() =~= joined(chunks));
    }
    lemma_scan_without_marker(r.tail, r.exit_code, true);
    assert(r.shown + Seq::<u8>::empty() + final_shown(r.tail) =~= joined(chunks));
}

/// A run of code bytes is all code bytes.
proof fn lemma_code_run_all(d: Seq<u8>)
    requires
        forall|i: int| 0 <= i < d.len() ==> is_digit(#[trigger] d[i]) || d[i] == 45u8,
    ensures
        code_run(d) == d.len(),
    decreases d.len(),
{
    if d.len() > 0 {
        let t = d.drop_first();
        assert forall|i: int| 0 <= i < t.len() implies is_digit(#[trigger] t[i]) || t[i] == 45u8 by {
            assert(t[i] == d[i + 1]);
        }
        lemma_code_run_all(t);
        assert(is_digit(d[0]) || d[0] == 45u8);
    }
}

/// The bytes of decimal text are code bytes up to the line break after them.
proof fn lemma_code_run_of_code_line(code: i32)
    ensures
        code_run(int_decimal(code as int) + seq![10u8]) == int_decimal(code as int).len(),
{
    lemma_int_decimal_bytes(code as int);
    lemma_code_run_before_newline(int_decimal(code as int));
}

/// A run of code bytes followed by `\n` has the run's length.
proof fn lemma_code_run_before_newline(d: Seq<u8>)
    requires
        forall|i: int| 0 <= i < d.len() ==> is_digit(#[trigger] d[i]) || d[i] == 45u8,
    ensures
        code_run(d + seq![10u8]) == d.len(),
    decreases d.len(),
{
    if d.len() > 0 {
        let t = d.drop_first();
        assert forall|i: int| 0 <= i < t.len() implies is_digit(#[trigger] t[i]) || t[i] == 45u8 by {
            assert(t[i] == d[i + 1]);
        }
        lemma_code_run_before_newline(t);
        assert((d + seq![10u8]).drop_first() =~= t + seq![10u8]);
        assert((d + seq![10u8])[0] == d[0]);
    } else {
        assert((d + seq![10u8])[0] == 10u8);
    }
}

/// No marker starts before position `k` of `h`.
pub open spec fn no_marker_before(h: Seq<u8>, k: int) -> bool {
    forall|j: int| 0 <= j < k ==> !occurs_at(h, exit_code_marker(), j)
}

/// A scan over text followed by an exit-code line shows the text, reads the
/// code and holds nothing back.
proof fn lemma_scan_marker_line(text: Seq<u8>, code: i32, e: Option<i32>, ends: bool)
    requires
        no_marker_before(text + marker_line(code), text.len() as int),
    ensures
        scan(text + marker_line(code), e, ends) == (Scan {
            shown: text,
            tail: Seq::empty(),
            exit_code: Some(code),
            malformed: false,
        }),
{
    let m = exit_code_marker();
    let dec = int_decimal(code as int);
    let h = text + marker_line(code);
    let t = text.len() as int;
    lemma_marker_line_occurrence(text, code);
    lemma_find_first_at(h, m, t);
    lemma_marker_underscores();
    let after = h.skip(t + 19);
    assert(after =~= dec + seq![10u8]);
    assert(h.take(t) =~= text);
    lemma_int_decimal_bytes(code as int);
    assert(after[0] == dec[0]);
    lemma_code_run_of_code_line(code);
    assert(after.take(dec.len() as int) =~= dec);
    law_decimal_text_reads_back(code);
    let rest = after.skip(dec.len() as int);
    assert(rest =~= seq![10u8]);
    assert(rest.subrange(0, 1) =~= seq![10u8]);
    assert(occurs_at(rest, seq![10u8], 0));
    lemma_find_first_at(rest, seq![10u8], 0);
    assert(after_code_line(rest) =~= Seq::<u8>::empty());
    lemma_scan_without_marker(Seq::<u8>::empty(), Some(code), ends);
    assert(text + Seq::<u8>::empty() =~= text);
}

/// The part of `text + marker_line(code)` from `k` (inside the text) to `p`,
/// scanned: before the marker is complete nothing is shown and all is held;
/// once the marker has come but not the end of its line, the text is shown
/// and the marker line held; once the line has ended, the text is shown and
/// the code read.
#[verifier::spinoff_prover]
#[verifier::rlimit(60)]
proof fn lemma_scan_window(text: Seq<u8>, code: i32, k: int, p: int, e: Option<i32>)
    requires
        no_marker_before(text + marker_line(code), text.len() as int),
        0 <= k <= text.len(),
        k <= p <= text.len() + marker_line(code).len(),
    ensures
        p < text.len() + 19 ==> {
            &&& !contains((text + marker_line(code)).subrange(k, p), exit_code_marker())
            &&& scan((text + marker_line(code)).subrange(k, p), e, false) == (Scan {
                shown: Seq::empty(),
                tail: (text + marker_line(code)).subrange(k, p),
                exit_code: e,
                malformed: false,
            })
        },
        text.len() + 19 <= p < text.len() + marker_line(code).len() ==> {
            &&& contains(
                (text + marker_line(code)).subrange(text.len() as int, p),
                exit_code_marker(),
            )
            &&& scan((text + marker_line(code)).subrange(k, p), e, false) == (Scan {
                shown: text.skip(k),
                tail: (text + marker_line(code)).subrange(text.len() as int, p),
                exit_code: e,
                malformed: false,
            })
        },
        p == text.len() + marker_line(code).len() ==> scan(
            (text + marker_line(code)).subrange(k, p),
            e,
            false,
        ) == (Scan {
            shown: text.skip(k),
            tail: Seq::empty(),
            exit_code: Some(code),
            malformed: false,
        }),
{
    let m = exit_code_marker();
    let dec = int_decimal(code as int);
    let h = text + marker_line(code);
    let t = text.len() as int;
    let u = h.subrange(k, p);
    lemma_marker_underscores();
    lemma_marker_line_bytes(code);
    lemma_marker_line_occurrence(text, code);
    lemma_int_decimal_bytes(code as int);
    assert(h.len() == t + 20 + dec.len());
    if p < t + 19 {
        assert(!contains(u, m)) by {
            if contains(u, m) {
                let j = choose|j: int| occurs_at(u, m, j);
                assert(h.subrange(k + j, k + j + 19) =~= u.subrange(j, j + 19));
                assert(occurs_at(h, m, k + j));
            }
        }
        lemma_scan_without_marker(u, e, false);
    } else if p < h.len() {
        assert(occurs_at(u, m, t - k)) by {
            assert(u.subrange(t - k, t - k + 19) =~= h.subrange(t, t + 19));
        }
        assert forall|j: int| 0 <= j < t - k implies !occurs_at(u, m, j) by {
            if occurs_at(u, m, j) {
                assert(h.subrange(k + j, k + j + 19) =~= u.subrange(j, j + 19));
                assert(occurs_at(h, m, k + j));
            }
        }
        lemma_find_first_at(u, m, t - k);
        let tl = h.subrange(t, p);
        assert(u.skip(t - k) =~= tl);
        assert(occurs_at(tl, m, 0)) by {
            assert(tl.subrange(0, 19) =~= h.subrange(t, t + 19));
        }
        assert(u.take(t - k) =~= text.skip(k));
        let after = u.skip(t - k + 19);
        let q = p - t - 19;
        assert(after =~= dec.take(q));
        if after.len() > 0 {
            assert(after[0] == dec[0]);
            assert forall|i: int| 0 <= i < after.len() implies is_digit(#[trigger] after[i])
                || after[i] == 45u8 by {
                assert(after[i] == dec[i]);
            }
            lemma_code_run_all(after);
            let rest = after.skip(after.len() as int);
            assert(rest.len() == 0);
            lemma_find_first(rest, seq![10u8]);
            assert(!contains(rest, seq![10u8]));
        }
    } else {
        assert(u =~= text.skip(k) + marker_line(code));
        assert(no_marker_before(text.skip(k) + marker_line(code), t - k)) by {
            assert forall|j: int| 0 <= j < t - k implies !occurs_at(
                text.skip(k) + marker_line(code),
                m,
                j,
            ) by {
                if occurs_at(text.skip(k) + marker_line(code), m, j) {
                    assert(h.subrange(k + j, k + j + 19) =~= u.subrange(j, j + 19));
                    assert(occurs_at(h, m, k + j));
                }
            }
        }
        lemma_scan_marker_line(text.skip(k), code, e, false);
    }
}

/// Where a run stands after the first `p` bytes of `text + marker_line(code)`:
/// before the marker is complete, it has shown part of the text and holds the
/// rest; while the marker line waits for its end, it has shown the text and
/// holds the line; after the line, it has shown the text and read the code.
pub open spec fn run_at(text: Seq<u8>, code: i32, r: Run, p: int) -> bool {
    let h = text + marker_line(code);
    let t = text.len() as int;
    &&& !r.stopped
    &&& (p < t + 19 ==> r.exit_code is None && r.shown.len() <= t && r.shown + r.tail == h.take(
        p,
    ))
    &&& (t + 19 <= p < h.len() ==> r.exit_code is None && r.shown == text && r.tail
        == h.subrange(t, p))
    &&& (p == h.len() ==> r.exit_code == Some(code) && r.shown == text && r.tail.len() == 0)
}

/// Every byte of `s` is ASCII.
pub open spec fn is_ascii_bytes(s: Seq<u8>) -> bool {
    forall|i: int| 0 <= i < s.len() ==> #[trigger] s[i] < 128
}

/// One step of a run over `text + marker_line(code)`, from its first `p0`
/// bytes to its first `p0 + chunk.len()`.
#[verifier::spinoff_prover]
#[verifier::rlimit(60)]
proof fn lemma_run_step(text: Seq<u8>, code: i32, prev: Run, p0: int, chunk: Seq<u8>)
    requires
        no_marker_before(text + marker_line(code), text.len() as int),
        0 <= p0,
        p0 + chunk.len() <= (text + marker_line(code)).len(),
        chunk == (text + marker_line(code)).subrange(p0, p0 + chunk.len()),
        run_at(text, code, prev, p0),
        is_ascii_bytes(text) || !run_step(prev, chunk).stopped,
    ensures
        run_at(text, code, run_step(prev, chunk), p0 + chunk.len()),
{
    let h = text + marker_line(code);
    let t = text.len() as int;
    let p = p0 + chunk.len();
    lemma_marker_underscores();
    lemma_marker_line_bytes(code);
    let u = prev.tail + chunk;
    let r = run_step(prev, chunk);
    if p0 < t + 19 {
        let k = prev.shown.len() as int;
        assert(prev.shown + prev.tail == h.take(p0));
        assert(prev.shown =~= h.take(k)) by {
            assert(prev.shown =~= (prev.shown + prev.tail).take(k));
            assert(h.take(p0).take(k) =~= h.take(k));
        }
        assert(prev.tail =~= h.subrange(k, p0)) by {
            assert(prev.tail =~= (prev.shown + prev.tail).skip(k));
            assert(h.take(p0).skip(k) =~= h.subrange(k, p0));
        }
        assert(u =~= h.subrange(k, p));
        assert(h.take(k) =~= text.take(k));
        lemma_scan_window(text, code, k, p, None);
        let sc = scan(u, None, false);
        if p < t + 19 {
            let rl = release_len(u);
            if rl > 0 && is_ascii_bytes(text) {
                assert(u[rl] == h[k + rl]);
                if k + rl < t {
                    assert(h[k + rl] == text[k + rl]);
                } else {
                    assert(h[k + rl] == exit_code_marker()[k + rl - t]);
                }
                assert(!release_splits_char(u));
            }
            assert(r.shown =~= h.take(k) + Seq::<u8>::empty() + u.take(rl));
            assert(r.tail =~= u.skip(rl));
            assert(r.shown + r.tail =~= h.take(p));
        } else {
            assert(release_len(sc.tail) == 0);
            assert(text.take(k) + text.skip(k) + sc.tail.take(0) =~= text);
            assert(r.shown =~= text);
            assert(r.tail =~= sc.tail);
            if p < h.len() {
                assert(r.tail =~= h.subrange(t, p));
            }
        }
    } else if p0 < h.len() {
        assert(u =~= h.subrange(t, p));
        lemma_scan_window(text, code, t, p, None);
        let sc = scan(u, None, false);
        assert(release_len(sc.tail) == 0);
        assert(text.skip(t) =~= Seq::<u8>::empty());
        assert(text + Seq::<u8>::empty() + sc.tail.take(0) =~= text);
        assert(r.shown =~= text);
        assert(r.tail =~= sc.tail);
        if p < h.len() {
            assert(r.tail =~= h.subrange(t, p));
        }
    } else {
        assert(u =~= Seq::<u8>::empty());
        lemma_scan_without_marker(u, prev.exit_code, false);
        assert(r.shown =~= text + Seq::<u8>::empty() + Seq::<u8>::empty().take(0));
        assert(r.tail =~= Seq::<u8>::empty());
    }
}

/// A run over chunks that join to a prefix of `text + marker_line(code)`.
proof fn lemma_run_prefix(text: Seq<u8>, code: i32, chunks: Seq<Seq<u8>>)
    requires
        no_marker_before(text + marker_line(code), text.len() as int),
        joined(chunks).len() <= (text + marker_line(code)).len(),
        joined(chunks) == (text + marker_line(code)).take(joined(chunks).len() as int),
        is_ascii_bytes(text) || !run(chunks).stopped,
    ensures
        run_at(text, code, run(chunks), joined(chunks).len() as int),
    decreases chunks.len(),
{
    let h = text + marker_line(code);
    if chunks.len() == 0 {
        assert(h.take(0) =~= Seq::<u8>::empty());
        assert(Seq::<u8>::empty() + Seq::<u8>::empty() =~= Seq::<u8>::empty());
    } else {
        let rest = chunks.drop_last();
        let last = chunks.last();
        let p0 = joined(rest).len() as int;
        let p = joined(chunks).len() as int;
        assert(joined(chunks) == joined(rest) + last);
        assert(joined(rest) =~= h.take(p0)) by {
            assert(joined(rest) =~= (joined(rest) + last).take(p0));
        }
        assert(last =~= h.subrange(p0, p)) by {
            assert(last =~= (joined(rest) + last).skip(p0));
        }
        assert(is_ascii_bytes(text) || !run(rest).stopped);
        lemma_run_prefix(text, code, rest);
        lemma_run_step(text, code, run(rest), p0, last);
    }
}

/// Law: however the stream is cut into chunks, the command's output followed
/// by its exit-code line is shown as the output alone, the run does not stop
/// on the way, and the exit code is read back exactly. The output must not
/// itself hold a marker. For ASCII output this holds of every chunking; for
/// other output, of every chunking on which the CLI does not stop where
/// passing text on would cut a character in two.
pub proof fn law_marker_line_split_anywhere(text: Seq<u8>, code: i32, chunks: Seq<Seq<u8>>)
    requires
        no_marker_before(text + marker_line(code), text.len() as int),
        joined(chunks) == text + marker_line(code),
        is_ascii_bytes(text) || !run(chunks).stopped,
    ensures
        !run(chunks).stopped,
        stream_output(chunks) == text,
        run(chunks).exit_code == Some(code),
        run_end(chunks).exit_code == Some(code),
        code == 0 ==> shell_exit(run_end(chunks).exit_code) == ShellExit::Success,
        code != 0 ==> shell_exit(run_end(chunks).exit_code) == ShellExit::Failed(code),
{
    law_shell_exit_reports_the_code(code);
    let h = text + marker_line(code);
    assert(h.take(h.len() as int) =~= h);
    lemma_run_prefix(text, code, chunks);
    let r = run(chunks);
    lemma_scan_without_marker(r.tail, r.exit_code, true);
    assert(r.shown + Seq::<u8>::empty() + final_shown(r.tail) =~= text);
}

} // verus!
