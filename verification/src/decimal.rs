//! Decimal text for integers: writing them, and reading them back as
//! `str::parse::<i32>` does.
use vstd::prelude::*;

use crate::text::push_char;

verus! {

/// The ASCII byte of the decimal digit `d`.
pub open spec fn digit_byte(d: nat) -> u8 {
    (d + 48) as u8
}

/// Whether `b` is an ASCII decimal digit.
pub open spec fn is_digit(b: u8) -> bool {
    48 <= b <= 57
}

/// The decimal digits of `n`, most significant first, with no leading zero.
pub open spec fn nat_decimal(n: nat) -> Seq<u8>
    decreases n,
{
    if n < 10 {
        seq![digit_byte(n)]
    } else {
        nat_decimal(n / 10).push(digit_byte(n % 10))
    }
}

/// The decimal text of `i`: its digits, after a `-` when it is negative.
pub open spec fn int_decimal(i: int) -> Seq<u8> {
    if i < 0 {
        seq![45u8] + nat_decimal((-i) as nat)
    } else {
        nat_decimal(i as nat)
    }
}

/// The characters of a sequence of ASCII bytes.
pub open spec fn ascii_chars(s: Seq<u8>) -> Seq<char> {
    s.map_values(|b: u8| b as char)
}

/// Every byte of `s` is a decimal digit.
pub open spec fn all_digits(s: Seq<u8>) -> bool {
    forall|i: int| 0 <= i < s.len() ==> is_digit(#[trigger] s[i])
}

/// The number that a run of decimal digits denotes.
pub open spec fn digits_value(s: Seq<u8>) -> nat
    decreases s.len(),
{
    if s.len() == 0 {
        0
    } else {
        digits_value(s.drop_last()) * 10 + (s.last() - 48) as nat
    }
}

/// What `str::parse::<i32>` returns for the text with bytes `s`: an optional
/// `+` or `-`, then one or more decimal digits, whose value fits in an `i32`.
pub open spec fn parse_i32_spec(s: Seq<u8>) -> Option<i32> {
    let signed = s.len() > 0 && (s[0] == 43u8 || s[0] == 45u8);
    let negative = s.len() > 0 && s[0] == 45u8;
    let body = if signed {
        s.drop_first()
    } else {
        s
    };
    if body.len() > 0 && all_digits(body) {
        let v: int = if negative {
            -(digits_value(body) as int)
        } else {
            digits_value(body) as int
        };
        if i32::MIN <= v <= i32::MAX {
            Some(v as i32)
        } else {
            None
        }
    } else {
        None
    }
}

/// Decimal digits are non-empty, all digits, and denote the number written.
pub proof fn lemma_nat_decimal(n: nat)
    ensures
        nat_decimal(n).len() >= 1,
        all_digits(nat_decimal(n)),
        digits_value(nat_decimal(n)) == n,
    decreases n,
{
    if n < 10 {
        let s = nat_decimal(n);
        assert(s.drop_last() =~= Seq::<u8>::empty());
        assert(digits_value(s) == digits_value(s.drop_last()) * 10 + (s.last() - 48) as nat);
    } else {
        lemma_nat_decimal(n / 10);
        let s = nat_decimal(n);
        assert(s.drop_last() =~= nat_decimal(n / 10));
        assert(s.last() == digit_byte(n % 10));
        assert(digits_value(s) == digits_value(s.drop_last()) * 10 + (s.last() - 48) as nat);
        assert(n == (n / 10) * 10 + n % 10) by (nonlinear_arith);
        assert forall|i: int| 0 <= i < s.len() implies is_digit(#[trigger] s[i]) by {
            if i < s.len() - 1 {
                assert(s[i] == nat_decimal(n / 10)[i]);
            }
        }
    }
}

/// A run of digits denotes at least as much as any of its prefixes.
pub proof fn lemma_digits_value_prefix(s: Seq<u8>, k: int)
    requires
        all_digits(s),
        0 <= k <= s.len(),
    ensures
        digits_value(s.take(k)) <= digits_value(s),
    decreases s.len(),
{
    if k < s.len() {
        let t = s.drop_last();
        assert(all_digits(t)) by {
            assert forall|i: int| 0 <= i < t.len() implies is_digit(#[trigger] t[i]) by {
                assert(t[i] == s[i]);
            }
        }
        lemma_digits_value_prefix(t, k);
        assert(t.take(k) =~= s.take(k));
    } else {
        assert(s.take(k) =~= s);
    }
}

/// Law: reading back the decimal text of an `i32` gives that `i32`.
pub proof fn law_decimal_text_reads_back(v: i32)
    ensures
        parse_i32_spec(int_decimal(v as int)) == Some(v),
{
    if v < 0 {
        let m = (-(v as int)) as nat;
        lemma_nat_decimal(m);
        let s = int_decimal(v as int);
        assert(s.drop_first() =~= nat_decimal(m));
        assert(s[0] == 45u8);
    } else {
        let m = v as nat;
        lemma_nat_decimal(m);
        let s = nat_decimal(m);
        assert(is_digit(s[0]));
    }
}

/// Appends the decimal digits of `n` to `out`.
pub fn push_decimal(out: &mut Vec<u8>, n: u128)
    ensures
        final(out)@ == old(out)@ + nat_decimal(n as nat),
    decreases n,
{
    if n >= 10 {
        push_decimal(out, n / 10);
    }
    let d: u8 = (n % 10) as u8;
    out.push(d + 48);
    assert(final(out)@ =~= old(out)@ + nat_decimal(n as nat));
}

/// Appends the decimal text of `v` to `out`.
pub fn push_i32(out: &mut Vec<u8>, v: i32)
    ensures
        final(out)@ == old(out)@ + int_decimal(v as int),
{
    if v < 0 {
        out.push(45u8);
        let m: u128 = (0i64 - v as i64) as u128;
        push_decimal(out, m);
        assert(final(out)@ =~= old(out)@ + int_decimal(v as int));
    } else {
        push_decimal(out, v as u128);
    }
}

/// Appends the decimal digits of `n` to the string `s`.
pub fn push_decimal_str(s: &mut String, n: u128)
    ensures
        final(s)@ == old(s)@ + ascii_chars(nat_decimal(n as nat)),
    decreases n,
{
    if n >= 10 {
        push_decimal_str(s, n / 10);
    }
    let d: u8 = (n % 10) as u8;
    push_char(s, (d + 48) as char);
    assert(ascii_chars(nat_decimal(n as nat)) =~= if n >= 10 {
        ascii_chars(nat_decimal((n / 10) as nat)).push((d + 48) as char)
    } else {
        seq![(d + 48) as char]
    });
    assert(final(s)@ =~= old(s)@ + ascii_chars(nat_decimal(n as nat)));
}

/// Appends the decimal text of `v` to the string `s`.
pub fn push_i32_str(s: &mut String, v: i32)
    ensures
        final(s)@ == old(s)@ + ascii_chars(int_decimal(v as int)),
{
    if v < 0 {
        push_char(s, '-');
        let m: u128 = (0i64 - v as i64) as u128;
        push_decimal_str(s, m);
        assert(ascii_chars(int_decimal(v as int)) =~= seq!['-'] + ascii_chars(
            nat_decimal(m as nat),
        ));
        assert(final(s)@ =~= old(s)@ + ascii_chars(int_decimal(v as int)));
    } else {
        push_decimal_str(s, v as u128);
    }
}

/// Reads `s` as `str::parse::<i32>` does: `None` where that gives an error.
pub fn parse_i32(s: &[u8]) -> (r: Option<i32>)
    ensures
        r == parse_i32_spec(s@),
{
    let n = s.len();
    if n == 0 {
        return None;
    }
    let first = s[0];
    let negative = first == 45u8;
    let start: usize = if first == 43u8 || first == 45u8 {
        1
    } else {
        0
    };
    let ghost body = s@.subrange(start as int, n as int);
    assert(body =~= if start == 1 {
        s@.drop_first()
    } else {
        s@
    });
    if start == n {
        return None;
    }
    let mut i = start;
    let mut acc: u64 = 0;
    while i < n
        invariant
            start <= i <= n,
            n == s@.len(),
            n > 0,
            start == (if s@[0] == 43u8 || s@[0] == 45u8 {
                1usize
            } else {
                0usize
            }),
            negative == (s@[0] == 45u8),
            body == (if start == 1 {
                s@.drop_first()
            } else {
                s@
            }),
            body.len() > 0,
            all_digits(body.take(i - start)),
            acc == digits_value(body.take(i - start)),
            acc <= 2147483648,
        decreases n - i,
    {
        let b = s[i];
        assert(b == body[i - start]);
        if !(48u8 <= b && b <= 57u8) {
            assert(!all_digits(body));
            return None;
        }
        let ghost prev = body.take(i - start);
        assert(body.take(i + 1 - start).drop_last() =~= prev);
        assert(body.take(i + 1 - start).last() == b);
        acc = acc * 10 + (b - 48u8) as u64;
        i = i + 1;
        assert(all_digits(body.take(i - start))) by {
            let t = body.take(i - start);
            assert forall|j: int| 0 <= j < t.len() implies is_digit(#[trigger] t[j]) by {
                if j < t.len() - 1 {
                    assert(t[j] == prev[j]);
                }
            }
        }
        if acc > 2147483648 {
            proof {
                if all_digits(body) {
                    lemma_digits_value_prefix(body, (i - start) as int);
                }
            }
            return None;
        }
    }
    assert(body.take(n - start) =~= body);
    if negative {
        Some((0i64 - acc as i64) as i32)
    } else if acc <= 2147483647 {
        Some(acc as i32)
    } else {
        None
    }
}

/// Different numbers have different decimal text.
pub proof fn lemma_nat_decimal_injective(a: nat, b: nat)
    requires
        ascii_chars(nat_decimal(a)) == ascii_chars(nat_decimal(b)),
    ensures
        a == b,
{
    lemma_nat_decimal(a);
    lemma_nat_decimal(b);
    let x = nat_decimal(a);
    let y = nat_decimal(b);
    assert(x.len() == ascii_chars(x).len());
    assert forall|i: int| 0 <= i < x.len() implies x[i] == y[i] by {
        assert(ascii_chars(x)[i] == x[i] as char);
        assert(ascii_chars(y)[i] == y[i] as char);
        assert((x[i] as char) as u8 == x[i]);
        assert((y[i] as char) as u8 == y[i]);
    }
    assert(x =~= y);
}

} // verus!
