//! Substring search on byte strings.
//!
//! All markers that the gateway looks for are ASCII, so a search on the
//! UTF-8 bytes of a text finds exactly the positions that a search on its
//! characters would find.
use vstd::prelude::*;

verus! {

/// `needle` stands in `hay` at offset `at`.
pub open spec fn occurs_at(hay: Seq<u8>, needle: Seq<u8>, at: int) -> bool {
    &&& 0 <= at
    &&& at + needle.len() <= hay.len()
    &&& hay.subrange(at, at + needle.len()) == needle
}

/// `needle` stands somewhere in `hay`.
pub open spec fn occurs(hay: Seq<u8>, needle: Seq<u8>) -> bool {
    exists|at: int| occurs_at(hay, needle, at)
}

/// `needle` stands in `hay` at `at` and at no smaller offset.
pub open spec fn is_first_occurrence(hay: Seq<u8>, needle: Seq<u8>, at: int) -> bool {
    &&& occurs_at(hay, needle, at)
    &&& forall|j: int| 0 <= j < at ==> !occurs_at(hay, needle, j)
}

/// The smallest offset at which `needle` stands in `hay`, if there is one.
pub open spec fn first_occurrence(hay: Seq<u8>, needle: Seq<u8>) -> Option<int> {
    if occurs(hay, needle) {
        Some(choose|at: int| is_first_occurrence(hay, needle, at))
    } else {
        None
    }
}

/// `hay` begins with `prefix`.
pub open spec fn has_prefix(hay: Seq<u8>, prefix: Seq<u8>) -> bool {
    occurs_at(hay, prefix, 0)
}

/// Below the offset `bound` there is no occurrence of `needle` in `hay`.
pub open spec fn absent_below(hay: Seq<u8>, needle: Seq<u8>, bound: int) -> bool {
    forall|j: int| 0 <= j < bound ==> !occurs_at(hay, needle, j)
}

/// The least element of a non-empty set of offsets exists: an occurrence at
/// `at` yields a first occurrence at or below `at`.
proof fn lemma_least_occurrence(hay: Seq<u8>, needle: Seq<u8>, at: int) -> (least: int)
    requires
        occurs_at(hay, needle, at),
    ensures
        is_first_occurrence(hay, needle, least),
        least <= at,
    decreases at,
{
    if exists|j: int| 0 <= j < at && occurs_at(hay, needle, j) {
        let j = choose|j: int| 0 <= j < at && occurs_at(hay, needle, j);
        lemma_least_occurrence(hay, needle, j)
    } else {
        at
    }
}

/// What `first_occurrence` returns: the first occurrence where there is one,
/// and nothing exactly when `needle` does not occur.
pub proof fn lemma_first_occurrence(hay: Seq<u8>, needle: Seq<u8>)
    ensures
        match first_occurrence(hay, needle) {
            Some(at) => is_first_occurrence(hay, needle, at),
            None => forall|j: int| !occurs_at(hay, needle, j),
        },
{
    if occurs(hay, needle) {
        let at = choose|at: int| occurs_at(hay, needle, at);
        let least = lemma_least_occurrence(hay, needle, at);
    }
}

/// A first occurrence is the one that `first_occurrence` names.
pub proof fn lemma_first_occurrence_unique(hay: Seq<u8>, needle: Seq<u8>, at: int)
    requires
        is_first_occurrence(hay, needle, at),
    ensures
        first_occurrence(hay, needle) == Some(at),
{
    lemma_first_occurrence(hay, needle);
}

/// Without any occurrence, `first_occurrence` names none.
pub proof fn lemma_first_occurrence_none(hay: Seq<u8>, needle: Seq<u8>)
    requires
        forall|j: int| !occurs_at(hay, needle, j),
    ensures
        first_occurrence(hay, needle) is None,
{
}

/// Whether `needle` stands in `hay` at offset `at`.
pub fn matches_at(hay: &[u8], needle: &[u8], at: usize) -> (r: bool)
    ensures
        r == occurs_at(hay@, needle@, at as int),
{
    if needle.len() > hay.len() || at > hay.len() - needle.len() {
        return false;
    }
    let mut k: usize = 0;
    while k < needle.len()
        invariant
            k <= needle.len(),
            at + needle.len() <= hay.len(),
            forall|i: int| 0 <= i < k ==> hay@[at + i] == needle@[i],
        decreases needle.len() - k,
    {
        if hay[at + k] != needle[k] {
            proof {
                let window = hay@.subrange(at as int, at + needle@.len());
                assert(window[k as int] == hay@[at + k]);
            }
            return false;
        }
        k += 1;
    }
    assert(hay@.subrange(at as int, at + needle@.len()) =~= needle@);
    true
}

/// The offset of the first occurrence of `needle` in `hay`.
///
/// An empty `needle` occurs at offset 0 of every text.
pub fn find(hay: &[u8], needle: &[u8]) -> (r: Option<usize>)
    ensures
        match r {
            Some(at) => first_occurrence(hay@, needle@) == Some(at as int),
            None => first_occurrence(hay@, needle@) is None,
        },
{
    if needle.len() > hay.len() {
        proof {
            lemma_first_occurrence_none(hay@, needle@);
        }
        return None;
    }
    let last: usize = hay.len() - needle.len();
    let mut at: usize = 0;
    loop
        invariant
            last == hay.len() - needle.len(),
            at <= last,
            absent_below(hay@, needle@, at as int),
        decreases last - at,
    {
        if matches_at(hay, needle, at) {
            proof {
                lemma_first_occurrence_unique(hay@, needle@, at as int);
            }
            return Some(at);
        }
        if at == last {
            proof {
                lemma_first_occurrence_none(hay@, needle@);
            }
            return None;
        }
        at += 1;
    }
}

/// Whether `needle` occurs in `hay`.
pub fn contains(hay: &[u8], needle: &[u8]) -> (r: bool)
    ensures
        r == occurs(hay@, needle@),
{
    find(hay, needle).is_some()
}

/// Whether `hay` begins with `prefix`.
pub fn starts_with(hay: &[u8], prefix: &[u8]) -> (r: bool)
    ensures
        r == has_prefix(hay@, prefix@),
{
    matches_at(hay, prefix, 0)
}

} // verus!
