//! The exit-code marker that Komodo Core writes after a command's output:
//! `__KOMODO_EXIT_CODE:` followed by the exit code and a line break.
use vstd::prelude::*;

use crate::decimal::{all_digits, int_decimal, is_digit, lemma_nat_decimal, nat_decimal};
use crate::search::occurs_at;

verus! {

/// The bytes of `__KOMODO_EXIT_CODE:`.
pub open spec fn exit_code_marker() -> Seq<u8> {
    seq![
        95u8, 95u8, 75u8, 79u8, 77u8, 79u8, 68u8, 79u8, 95u8, 69u8,
        88u8, 73u8, 84u8, 95u8, 67u8, 79u8, 68u8, 69u8, 58u8,
    ]
}

/// The marker's bytes, `__KOMODO_EXIT_CODE:`.
pub fn exit_code_marker_bytes() -> (r: Vec<u8>)
    ensures
        r@ == exit_code_marker(),
{
    let r = vec![
        95u8, 95u8, 75u8, 79u8, 77u8, 79u8, 68u8, 79u8, 95u8, 69u8,
        88u8, 73u8, 84u8, 95u8, 67u8, 79u8, 68u8, 69u8, 58u8,
    ];
    assert(r@ =~= exit_code_marker());
    r
}

/// The text of an exit-code line: the marker, the code in decimal, and `\n`.
pub open spec fn marker_line(code: i32) -> Seq<u8> {
    exit_code_marker() + int_decimal(code as int) + seq![10u8]
}

/// The only places inside the marker where two underscores meet is its start.
pub proof fn lemma_marker_underscores()
    ensures
        exit_code_marker().len() == 19,
        forall|k: int|
            1 <= k < 18 ==> !(#[trigger] exit_code_marker()[k] == 95u8 && exit_code_marker()[k
                + 1] == 95u8),
{
    let m = exit_code_marker();
    assert(m[1] == 95u8 && m[2] == 75u8 && m[3] == 79u8 && m[4] == 77u8 && m[5] == 79u8);
    assert(m[6] == 68u8 && m[7] == 79u8 && m[8] == 95u8 && m[9] == 69u8 && m[10] == 88u8);
    assert(m[11] == 73u8 && m[12] == 84u8 && m[13] == 95u8 && m[14] == 67u8 && m[15] == 79u8);
    assert(m[16] == 68u8 && m[17] == 69u8 && m[18] == 58u8);
}

/// Bytes of decimal text are digits or `-`.
pub proof fn lemma_int_decimal_bytes(v: int)
    ensures
        int_decimal(v).len() >= 1,
        forall|i: int|
            0 <= i < int_decimal(v).len() ==> is_digit(#[trigger] int_decimal(v)[i])
                || int_decimal(v)[i] == 45u8,
{
    if v < 0 {
        lemma_nat_decimal((-v) as nat);
        let s = int_decimal(v);
        assert forall|i: int| 0 <= i < s.len() implies is_digit(#[trigger] s[i]) || s[i]
            == 45u8 by {
            if i > 0 {
                assert(s[i] == nat_decimal((-v) as nat)[i - 1]);
            }
        }
    } else {
        lemma_nat_decimal(v as nat);
    }
}

/// Where each byte of an exit-code line comes from.
pub proof fn lemma_marker_line_bytes(code: i32)
    ensures
        marker_line(code).len() == 20 + int_decimal(code as int).len(),
        forall|i: int| 0 <= i < 19 ==> #[trigger] marker_line(code)[i] == exit_code_marker()[i],
        forall|i: int|
            19 <= i < marker_line(code).len() ==> #[trigger] marker_line(code)[i] != 95u8,
{
    let d = int_decimal(code as int);
    let l = marker_line(code);
    lemma_int_decimal_bytes(code as int);
    assert forall|i: int| 19 <= i < l.len() implies #[trigger] l[i] != 95u8 by {
        if i < 19 + d.len() {
            assert(l[i] == d[i - 19]);
        } else {
            assert(l[i] == 10u8);
        }
    }
}

/// In `text` followed by an exit-code line, the marker occurs at the end of
/// `text` and nowhere after it.
pub proof fn lemma_marker_line_occurrence(text: Seq<u8>, code: i32)
    ensures
        occurs_at(text + marker_line(code), exit_code_marker(), text.len() as int),
        forall|j: int|
            text.len() < j ==> !occurs_at(text + marker_line(code), exit_code_marker(), j),
{
    let m = exit_code_marker();
    let l = marker_line(code);
    let h = text + l;
    let t = text.len() as int;
    lemma_marker_underscores();
    lemma_marker_line_bytes(code);
    assert(h.subrange(t, t + 19) =~= m);
    assert forall|j: int| t < j implies !occurs_at(h, m, j) by {
        if occurs_at(h, m, j) {
            assert(h.subrange(j, j + 19)[0] == m[0]);
            assert(h.subrange(j, j + 19)[1] == m[1]);
            assert(h[j + 1] == l[j + 1 - t]);
            if j < t + 18 {
                assert(h[j] == l[j - t]);
                assert(l[j - t] == m[j - t]);
                assert(l[j - t + 1] == m[j - t + 1]);
            }
        }
    }
}

} // verus!
