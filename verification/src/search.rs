//! Finding one byte string inside another.
use vstd::prelude::*;

verus! {

/// `needle` occurs in `haystack` starting at position `i`.
pub open spec fn occurs_at(haystack: Seq<u8>, needle: Seq<u8>, i: int) -> bool {
    0 <= i && i + needle.len() <= haystack.len() && haystack.subrange(i, i + needle.len())
        == needle
}

/// `needle` occurs somewhere in `haystack`.
pub open spec fn contains(haystack: Seq<u8>, needle: Seq<u8>) -> bool {
    exists|i: int| occurs_at(haystack, needle, i)
}

/// The first position at or after `i` where `needle` occurs.
pub open spec fn first_from(haystack: Seq<u8>, needle: Seq<u8>, i: int) -> Option<int>
    decreases haystack.len() + 1 - i,
{
    if i < 0 || i + needle.len() > haystack.len() {
        None
    } else if occurs_at(haystack, needle, i) {
        Some(i)
    } else {
        first_from(haystack, needle, i + 1)
    }
}

/// The first position where `needle` occurs, as `str::find` gives it.
pub open spec fn find_first(haystack: Seq<u8>, needle: Seq<u8>) -> Option<int> {
    first_from(haystack, needle, 0)
}

/// The last position at or before `i` where `needle` occurs.
pub open spec fn last_upto(haystack: Seq<u8>, needle: Seq<u8>, i: int) -> Option<int>
    decreases i + 1,
{
    if i < 0 {
        None
    } else if occurs_at(haystack, needle, i) {
        Some(i)
    } else {
        last_upto(haystack, needle, i - 1)
    }
}

/// The last position where `needle` occurs.
pub open spec fn find_last(haystack: Seq<u8>, needle: Seq<u8>) -> Option<int> {
    last_upto(haystack, needle, haystack.len() - needle.len())
}

/// What `first_from` gives is the first occurrence at or after `i`.
pub proof fn lemma_first_from(haystack: Seq<u8>, needle: Seq<u8>, i: int)
    requires
        0 <= i,
    ensures
        match first_from(haystack, needle, i) {
            Some(k) => i <= k && occurs_at(haystack, needle, k) && forall|j: int|
                i <= j < k ==> !occurs_at(haystack, needle, j),
            None => forall|j: int| i <= j ==> !occurs_at(haystack, needle, j),
        },
    decreases haystack.len() + 1 - i,
{
    if i + needle.len() <= haystack.len() && !occurs_at(haystack, needle, i) {
        lemma_first_from(haystack, needle, i + 1);
    }
}

/// `find_first` gives the first occurrence, or `None` when there is none.
pub proof fn lemma_find_first(haystack: Seq<u8>, needle: Seq<u8>)
    ensures
        match find_first(haystack, needle) {
            Some(k) => occurs_at(haystack, needle, k) && forall|j: int|
                0 <= j < k ==> !occurs_at(haystack, needle, j),
            None => !contains(haystack, needle),
        },
{
    lemma_first_from(haystack, needle, 0);
}

/// A first occurrence determines `find_first`.
pub proof fn lemma_find_first_at(haystack: Seq<u8>, needle: Seq<u8>, k: int)
    requires
        occurs_at(haystack, needle, k),
        forall|j: int| 0 <= j < k ==> !occurs_at(haystack, needle, j),
    ensures
        find_first(haystack, needle) == Some(k),
{
    lemma_find_first(haystack, needle);
    match find_first(haystack, needle) {
        Some(f) => {
            if f < k {
                assert(!occurs_at(haystack, needle, f));
            } else if f > k {
                assert(!occurs_at(haystack, needle, k));
            }
        },
        None => {
            assert(!occurs_at(haystack, needle, k));
        },
    }
}

/// What `last_upto` gives is the last occurrence at or before `i`.
pub proof fn lemma_last_upto(haystack: Seq<u8>, needle: Seq<u8>, i: int)
    ensures
        match last_upto(haystack, needle, i) {
            Some(k) => 0 <= k <= i && occurs_at(haystack, needle, k) && forall|j: int|
                k < j <= i ==> !occurs_at(haystack, needle, j),
            None => forall|j: int| j <= i ==> !occurs_at(haystack, needle, j),
        },
    decreases i + 1,
{
    if i >= 0 && !occurs_at(haystack, needle, i) {
        lemma_last_upto(haystack, needle, i - 1);
    }
}

/// `find_last` gives the last occurrence, or `None` when there is none.
pub proof fn lemma_find_last(haystack: Seq<u8>, needle: Seq<u8>)
    ensures
        match find_last(haystack, needle) {
            Some(k) => occurs_at(haystack, needle, k) && forall|j: int|
                k < j ==> !occurs_at(haystack, needle, j),
            None => !contains(haystack, needle),
        },
{
    lemma_last_upto(haystack, needle, haystack.len() - needle.len());
}

/// A last occurrence determines `find_last`.
pub proof fn lemma_find_last_at(haystack: Seq<u8>, needle: Seq<u8>, k: int)
    requires
        occurs_at(haystack, needle, k),
        forall|j: int| k < j ==> !occurs_at(haystack, needle, j),
    ensures
        find_last(haystack, needle) == Some(k),
{
    lemma_find_last(haystack, needle);
    match find_last(haystack, needle) {
        Some(f) => {
            if f < k {
                assert(!occurs_at(haystack, needle, k));
            } else if f > k {
                assert(!occurs_at(haystack, needle, f));
            }
        },
        None => {
            assert(!occurs_at(haystack, needle, k));
        },
    }
}

/// Whether `needle` occurs in `haystack` at position `i`.
pub fn matches_at(haystack: &[u8], needle: &[u8], i: usize) -> (r: bool)
    ensures
        r == occurs_at(haystack@, needle@, i as int),
{
    let n = needle.len();
    if i > haystack.len() || n > haystack.len() - i {
        return false;
    }
    let mut j: usize = 0;
    while j < n
        invariant
            j <= n,
            n == needle@.len(),
            i + n <= haystack@.len(),
            i + n <= haystack.len(),
            forall|k: int| 0 <= k < j ==> haystack@[i + k] == needle@[k],
        decreases n - j,
    {
        if haystack[i + j] != needle[j] {
            assert(haystack@.subrange(i as int, i + n)[j as int] != needle@[j as int]);
            return false;
        }
        j = j + 1;
    }
    assert(haystack@.subrange(i as int, i + n) =~= needle@);
    true
}

/// The first position where `needle` occurs in `haystack`, as `str::find`
/// and `<[u8]>::windows(..).position(..)` find it.
pub fn find_first_subslice(haystack: &[u8], needle: &[u8]) -> (r: Option<usize>)
    ensures
        match r {
            Some(k) => find_first(haystack@, needle@) == Some(k as int),
            None => find_first(haystack@, needle@) is None,
        },
{
    if needle.len() > haystack.len() {
        return None;
    }
    let last = haystack.len() - needle.len();
    let mut i: usize = 0;
    while i <= last
        invariant
            last + needle@.len() == haystack@.len(),
            first_from(haystack@, needle@, 0) == first_from(haystack@, needle@, i as int),
        decreases last + 1 - i,
    {
        if matches_at(haystack, needle, i) {
            return Some(i);
        }
        if i == last {
            assert(first_from(haystack@, needle@, i + 1) is None);
            return None;
        }
        i = i + 1;
    }
    None
}

/// Whether `needle` occurs in `haystack`.
pub fn contains_subslice(haystack: &[u8], needle: &[u8]) -> (r: bool)
    ensures
        r == contains(haystack@, needle@),
{
    proof {
        lemma_find_first(haystack@, needle@);
    }
    find_first_subslice(haystack, needle).is_some()
}

} // verus!
