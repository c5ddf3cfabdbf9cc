//! Text helpers: building strings, the character classes that the CLI uses,
//! and case-folded substring search.
use vstd::prelude::*;

use crate::search::{contains, contains_subslice};

verus! {

/// `String::push`: appends the character `c` to the end of `s`.
#[verifier::external_body]
pub(crate) fn push_char(s: &mut String, c: char)
    ensures
        final(s)@ == old(s)@.push(c),
{
    s.push(c);
}

/// What `str::to_lowercase` gives for a text: the Unicode lowercase mapping,
/// applied character by character and in context.
pub uninterp spec fn unicode_lowercase(s: Seq<char>) -> Seq<char>;

/// Every character of `s` is ASCII.
pub open spec fn is_ascii_text(s: Seq<char>) -> bool {
    forall|i: int| 0 <= i < s.len() ==> #[trigger] s[i] <= '\u{7f}'
}

/// The lowercase of an ASCII character: `A`-`Z` become `a`-`z`, the rest stay.
pub open spec fn ascii_lower(c: char) -> char {
    if 'A' <= c <= 'Z' {
        (c as int + 32) as char
    } else {
        c
    }
}

/// `str::to_lowercase`: the lowercase equivalent of `s`, as a new string. On
/// ASCII text this is `A`-`Z` to `a`-`z`, character for character.
#[verifier::external_body]
pub(crate) fn to_lowercase(s: &str) -> (r: String)
    ensures
        r@ == unicode_lowercase(s@),
        is_ascii_text(s@) ==> r@ == s@.map_values(|c: char| ascii_lower(c)),
{
    s.to_lowercase()
}

/// The UTF-8 bytes of a text.
pub open spec fn utf8(s: Seq<char>) -> Seq<u8> {
    vstd::utf8::encode_utf8(s)
}

/// `needle` occurs in `haystack`, as `str::contains` decides it: byte for byte
/// in their UTF-8 encodings.
pub open spec fn str_contains(haystack: Seq<char>, needle: Seq<char>) -> bool {
    contains(utf8(haystack), utf8(needle))
}

/// Whether `needle` occurs in `haystack`.
pub fn contains_str(haystack: &str, needle: &str) -> (r: bool)
    ensures
        r == str_contains(haystack@, needle@),
{
    contains_subslice(haystack.as_bytes(), needle.as_bytes())
}

/// The characters that Unicode gives the White_Space property, which is what
/// `char::is_whitespace` and `str::trim` go by.
pub open spec fn is_unicode_whitespace(c: char) -> bool {
    ||| '\u{9}' <= c <= '\u{d}'
    ||| c == ' '
    ||| c == '\u{85}'
    ||| c == '\u{a0}'
    ||| c == '\u{1680}'
    ||| '\u{2000}' <= c <= '\u{200a}'
    ||| c == '\u{2028}'
    ||| c == '\u{2029}'
    ||| c == '\u{202f}'
    ||| c == '\u{205f}'
    ||| c == '\u{3000}'
}

/// Whether `c` has the Unicode White_Space property.
pub fn is_whitespace(c: char) -> (r: bool)
    ensures
        r == is_unicode_whitespace(c),
{
    ('\u{9}' <= c && c <= '\u{d}') || c == ' ' || c == '\u{85}' || c == '\u{a0}' || c
        == '\u{1680}' || ('\u{2000}' <= c && c <= '\u{200a}') || c == '\u{2028}' || c
        == '\u{2029}' || c == '\u{202f}' || c == '\u{205f}' || c == '\u{3000}'
}

/// Every character of `s` is white space, so that `s.trim()` is empty.
pub open spec fn is_blank(s: Seq<char>) -> bool {
    forall|i: int| 0 <= i < s.len() ==> is_unicode_whitespace(#[trigger] s[i])
}

/// Whether `s.trim()` is empty: whether every character of `s` is white space.
pub fn trims_to_empty(s: &str) -> (r: bool)
    ensures
        r == is_blank(s@),
{
    let chars = chars_of(s);
    let n = chars.len();
    let mut i: usize = 0;
    while i < n
        invariant
            i <= n,
            n == s@.len(),
            chars@ == s@,
            forall|j: int| 0 <= j < i ==> is_unicode_whitespace(#[trigger] s@[j]),
        decreases n - i,
    {
        let c = chars[i];
        if !is_whitespace(c) {
            return false;
        }
        i = i + 1;
    }
    true
}

/// Whether `c` is an ASCII letter or digit.
pub open spec fn is_ascii_alphanumeric(c: char) -> bool {
    ||| '0' <= c <= '9'
    ||| 'a' <= c <= 'z'
    ||| 'A' <= c <= 'Z'
}

/// Texts joined with `\n` between them.
pub open spec fn joined_lines(texts: Seq<Seq<char>>) -> Seq<char>
    decreases texts.len(),
{
    if texts.len() == 0 {
        Seq::empty()
    } else if texts.len() == 1 {
        texts[0]
    } else {
        joined_lines(texts.drop_last()) + seq!['\n'] + texts.last()
    }
}

/// The texts of a list of strings.
pub open spec fn texts_of(strings: Seq<String>) -> Seq<Seq<char>> {
    strings.map_values(|s: String| s@)
}

/// The strings joined with `\n` between them, as `join("\n")` does.
pub fn join_lines(strings: &Vec<String>) -> (r: String)
    ensures
        r@ == joined_lines(texts_of(strings@)),
{
    let mut r = String::new();
    let ghost texts = texts_of(strings@);
    let mut i: usize = 0;
    while i < strings.len()
        invariant
            i <= strings@.len(),
            texts == texts_of(strings@),
            r@ == joined_lines(texts.take(i as int)),
        decreases strings@.len() - i,
    {
        if i != 0 {
            push_char(&mut r, '\n');
        }
        r.append(strings[i].as_str());
        assert(texts.take(i + 1).drop_last() =~= texts.take(i as int));
        assert(texts.take(i + 1).last() == strings@[i as int]@);
        if i == 0 {
            assert(texts.take(1) =~= seq![strings@[0]@]);
        }
        i = i + 1;
    }
    assert(texts.take(strings@.len() as int) =~= texts);
    r
}

/// The characters of `s`.
pub fn chars_of(s: &str) -> (r: Vec<char>)
    ensures
        r@ == s@,
{
    let mut v: Vec<char> = Vec::new();
    for c in it: s.chars()
        invariant
            v@ == it.seq().take(it.index() as int),
    {
        v.push(c);
    }
    proof {
        broadcast use vstd::string::group_string_axioms;
    }
    assert(v@ =~= s@);
    v
}

/// A string holding the characters `chars`.
pub fn string_of(chars: &[char]) -> (r: String)
    ensures
        r@ == chars@,
{
    let mut s = String::new();
    let mut i: usize = 0;
    while i < chars.len()
        invariant
            i <= chars@.len(),
            s@ == chars@.take(i as int),
        decreases chars@.len() - i,
    {
        push_char(&mut s, chars[i]);
        assert(chars@.take(i + 1) =~= chars@.take(i as int).push(chars@[i as int]));
        i = i + 1;
    }
    assert(chars@.take(chars@.len() as int) =~= chars@);
    s
}

} // verus!
