//! Character sequences: decoding a string into its characters and finding the
//! first place where one sequence occurs inside another.

use vstd::prelude::*;

verus! {

/// `needle` stands in `hay` at position `at`.
pub open spec fn occurs_at(hay: Seq<char>, needle: Seq<char>, at: int) -> bool {
    &&& 0 <= at
    &&& at + needle.len() <= hay.len()
    &&& hay.subrange(at, at + needle.len()) == needle
}

/// The least position at or after `from` where `needle` stands in `hay`.
pub open spec fn search_from(hay: Seq<char>, needle: Seq<char>, from: int) -> Option<int>
    decreases hay.len() - from,
{
    if occurs_at(hay, needle, from) {
        Some(from)
    } else if 0 <= from && from + needle.len() < hay.len() {
        search_from(hay, needle, from + 1)
    } else {
        None
    }
}

/// The position of the first occurrence of `needle` in `hay`, if there is one.
/// The empty sequence occurs at position 0 of every sequence.
pub open spec fn first_occurrence(hay: Seq<char>, needle: Seq<char>) -> Option<int> {
    search_from(hay, needle, 0)
}

/// A search from `from` finds an occurrence with none between `from` and it,
/// and fails only where there is no occurrence at or after `from`.
pub proof fn lemma_search_from_is_least(hay: Seq<char>, needle: Seq<char>, from: int)
    requires
        0 <= from,
    ensures
        match search_from(hay, needle, from) {
            Some(at) => {
                &&& from <= at
                &&& occurs_at(hay, needle, at)
                &&& forall|j: int| from <= j < at ==> !occurs_at(hay, needle, j)
            },
            None => forall|j: int| from <= j ==> !occurs_at(hay, needle, j),
        },
    decreases hay.len() - from,
{
    if !occurs_at(hay, needle, from) && from + needle.len() < hay.len() {
        lemma_search_from_is_least(hay, needle, from + 1);
    }
}

/// The first occurrence is an occurrence, no occurrence precedes it, and there
/// is none at all exactly when the search fails.
pub proof fn lemma_first_occurrence_is_least(hay: Seq<char>, needle: Seq<char>)
    ensures
        match first_occurrence(hay, needle) {
            Some(at) => {
                &&& occurs_at(hay, needle, at)
                &&& forall|j: int| j < at ==> !occurs_at(hay, needle, j)
            },
            None => forall|j: int| !occurs_at(hay, needle, j),
        },
{
    lemma_search_from_is_least(hay, needle, 0);
}

/// The characters of `s`, in order.
pub fn chars_of(s: &str) -> (chars: Vec<char>)
    ensures
        chars@ == s@,
{
    let mut chars: Vec<char> = Vec::new();
    for c in it: s.chars()
        invariant
            it.seq() == s@,
            chars@ == s@.take(it.index()),
    {
        chars.push(c);
    }
    chars
}

/// Whether `needle` stands in `hay` at position `at`.
pub fn matches_at(hay: &[char], at: usize, needle: &[char]) -> (found: bool)
    requires
        at + needle.len() <= hay.len(),
    ensures
        found == occurs_at(hay@, needle@, at as int),
{
    let mut j: usize = 0;
    while j < needle.len()
        invariant
            j <= needle.len(),
            at + needle.len() <= hay.len(),
            forall|t: int| 0 <= t < j ==> hay@[at + t] == needle@[t],
        decreases needle@.len() - j,
    {
        if hay[at + j] != needle[j] {
            assert(hay@.subrange(at as int, at + needle@.len())[j as int] == hay@[at + j]);
            return false;
        }
        j += 1;
    }
    assert(hay@.subrange(at as int, at + needle@.len()) =~= needle@);
    true
}

/// The position of the first occurrence of `needle` in `hay`.
pub fn find_first(hay: &[char], needle: &[char]) -> (found: Option<usize>)
    ensures
        match found {
            Some(at) => first_occurrence(hay@, needle@) == Some(at as int),
            None => first_occurrence(hay@, needle@) is None,
        },
{
    if needle.len() > hay.len() {
        return None;
    }
    let last: usize = hay.len() - needle.len();
    let mut at: usize = 0;
    loop
        invariant
            last == hay.len() - needle.len(),
            at <= last,
            first_occurrence(hay@, needle@) == search_from(hay@, needle@, at as int),
        decreases last - at,
    {
        if matches_at(hay, at, needle) {
            return Some(at);
        }
        if at == last {
            return None;
        }
        at += 1;
    }
}

} // verus!
