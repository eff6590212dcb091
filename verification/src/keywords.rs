//! The keyword list: entries separated by commas, each one stripped of the
//! white space around it.

use vstd::prelude::*;
use vstd::string::StrSliceExecFns;
use crate::text::chars_of;

verus! {

/// `c` is white space: a character with the Unicode property `White_Space`.
pub open spec fn is_whitespace(c: char) -> bool {
    let code = c as u32;
    ||| 0x09 <= code <= 0x0D
    ||| code == 0x20
    ||| code == 0x85
    ||| code == 0xA0
    ||| code == 0x1680
    ||| 0x2000 <= code <= 0x200A
    ||| code == 0x2028
    ||| code == 0x2029
    ||| code == 0x202F
    ||| code == 0x205F
    ||| code == 0x3000
}

/// `text` without the white space at its start.
pub open spec fn trim_start(text: Seq<char>) -> Seq<char>
    decreases text.len(),
{
    if text.len() > 0 && is_whitespace(text[0]) {
        trim_start(text.drop_first())
    } else {
        text
    }
}

/// `text` without the white space at its end.
pub open spec fn trim_end(text: Seq<char>) -> Seq<char>
    decreases text.len(),
{
    if text.len() > 0 && is_whitespace(text.last()) {
        trim_end(text.drop_last())
    } else {
        text
    }
}

/// `text` without the white space at either end.
pub open spec fn trimmed(text: Seq<char>) -> Seq<char> {
    trim_end(trim_start(text))
}

/// The entries of `text` between its commas, read from left to right: a comma
/// opens a new entry, any other character joins the entry that is open. There
/// is one entry more than there are commas.
pub open spec fn split_on_commas(text: Seq<char>) -> Seq<Seq<char>>
    decreases text.len(),
{
    if text.len() == 0 {
        seq![Seq::empty()]
    } else {
        let entries = split_on_commas(text.drop_last());
        if text.last() == ',' {
            entries.push(Seq::empty())
        } else {
            entries.drop_last().push(entries.last().push(text.last()))
        }
    }
}

/// The keywords that `text` lists: its entries between commas, each trimmed.
pub open spec fn keyword_list(text: Seq<char>) -> Seq<Seq<char>> {
    split_on_commas(text).map_values(|entry: Seq<char>| trimmed(entry))
}

/// `entries` written one after the other with a comma between neighbours.
pub open spec fn joined_by_commas(entries: Seq<Seq<char>>) -> Seq<char>
    decreases entries.len(),
{
    if entries.len() == 0 {
        Seq::empty()
    } else if entries.len() == 1 {
        entries[0]
    } else {
        joined_by_commas(entries.drop_last()) + seq![','] + entries.last()
    }
}

/// Splitting a text on its commas loses nothing: there is at least one entry,
/// no entry holds a comma, and the entries written with commas between them
/// are the text.
pub proof fn lemma_split_on_commas_inverts_joining(text: Seq<char>)
    ensures
        split_on_commas(text).len() >= 1,
        forall|i: int, j: int|
            0 <= i < split_on_commas(text).len() && 0 <= j < split_on_commas(text)[i].len()
                ==> split_on_commas(text)[i][j] != ',',
        joined_by_commas(split_on_commas(text)) == text,
    decreases text.len(),
{
    if text.len() == 0 {
        assert(joined_by_commas(split_on_commas(text)) =~= text);
    } else {
        let shorter = text.drop_last();
        let entries = split_on_commas(shorter);
        lemma_split_on_commas_inverts_joining(shorter);
        if text.last() == ',' {
            let longer = entries.push(Seq::empty());
            assert(longer.drop_last() =~= entries);
            assert(joined_by_commas(longer) =~= shorter + seq![',']);
            assert(shorter + seq![','] =~= text);
        } else {
            let grown = entries.last().push(text.last());
            let longer = entries.drop_last().push(grown);
            assert(longer.drop_last() =~= entries.drop_last());
            if entries.len() == 1 {
                assert(joined_by_commas(entries) == entries[0]);
                assert(joined_by_commas(longer) =~= shorter.push(text.last()));
            } else {
                assert(joined_by_commas(longer) =~= joined_by_commas(entries.drop_last()) + seq![
                    ',',
                ] + entries.last() + seq![text.last()]);
                assert(joined_by_commas(longer) =~= shorter + seq![text.last()]);
            }
            assert(shorter.push(text.last()) =~= text);
            assert(shorter + seq![text.last()] =~= text);
        }
    }
}

/// A keyword list has one keyword more than the text has commas, so at least one.
pub proof fn lemma_keyword_list_is_not_empty(text: Seq<char>)
    ensures
        keyword_list(text).len() >= 1,
{
    lemma_split_on_commas_inverts_joining(text);
}

/// Whether `c` is white space.
pub fn char_is_whitespace(c: char) -> (white: bool)
    ensures
        white == is_whitespace(c),
{
    let code: u32 = c as u32;
    (0x09 <= code && code <= 0x0D) || code == 0x20 || code == 0x85 || code == 0xA0 || code
        == 0x1680 || (0x2000 <= code && code <= 0x200A) || code == 0x2028 || code == 0x2029 || code
        == 0x202F || code == 0x205F || code == 0x3000
}

/// The bounds of the part of `text` between `from` and `to` that is left when
/// the white space at either end is taken away.
fn trim_bounds(text: &[char], from: usize, to: usize) -> (bounds: (usize, usize))
    requires
        from <= to <= text.len(),
    ensures
        from <= bounds.0 <= bounds.1 <= to,
        text@.subrange(bounds.0 as int, bounds.1 as int) == trimmed(
            text@.subrange(from as int, to as int),
        ),
{
    let mut start: usize = from;
    while start < to && char_is_whitespace(text[start])
        invariant
            from <= start <= to <= text.len(),
            trim_start(text@.subrange(from as int, to as int)) == trim_start(
                text@.subrange(start as int, to as int),
            ),
        decreases to - start,
    {
        assert(text@.subrange(start as int, to as int).drop_first() =~= text@.subrange(
            start + 1,
            to as int,
        ));
        start += 1;
    }
    let mut end: usize = to;
    while end > start && char_is_whitespace(text[end - 1])
        invariant
            start <= end <= to <= text.len(),
            trim_end(text@.subrange(start as int, to as int)) == trim_end(
                text@.subrange(start as int, end as int),
            ),
        decreases end - start,
    {
        assert(text@.subrange(start as int, end as int).drop_last() =~= text@.subrange(
            start as int,
            end - 1,
        ));
        end -= 1;
    }
    (start, end)
}

/// The entry that stands in `list` between `from` and `to`, trimmed.
fn trimmed_entry(list: &str, chars: &[char], from: usize, to: usize) -> (entry: String)
    requires
        chars@ == list@,
        from <= to <= chars.len(),
    ensures
        entry@ == trimmed(list@.subrange(from as int, to as int)),
{
    let (start, end) = trim_bounds(chars, from, to);
    list.substring_char(start, end).to_owned()
}

/// Reads a list of keywords: the entries of `list` between its commas, in
/// order, each without the white space around it. An empty entry is kept, so
/// the result is never empty.
pub fn parse_keywords(list: &str) -> (keywords: Vec<String>)
    ensures
        keywords.deep_view() == keyword_list(list@),
{
    let chars = chars_of(list);
    let mut keywords: Vec<String> = Vec::new();
    let ghost mut done: Seq<Seq<char>> = Seq::empty();
    let mut start: usize = 0;
    let mut at: usize = 0;
    assert(chars@.take(0) =~= Seq::<char>::empty());
    assert(chars@.subrange(0, 0) =~= Seq::<char>::empty());
    assert(keywords.deep_view() =~= done.map_values(|entry: Seq<char>| trimmed(entry)));
    assert(split_on_commas(chars@.take(0)) =~= done.push(chars@.subrange(0, 0)));
    while at < chars.len()
        invariant
            chars@ == list@,
            start <= at <= chars.len(),
            split_on_commas(chars@.take(at as int)) == done.push(
                chars@.subrange(start as int, at as int),
            ),
            keywords.deep_view() == done.map_values(|entry: Seq<char>| trimmed(entry)),
        decreases chars.len() - at,
    {
        let ghost open_entry = chars@.subrange(start as int, at as int);
        assert(chars@.take(at + 1).drop_last() =~= chars@.take(at as int));
        assert(chars@.take(at + 1).last() == chars@[at as int]);
        assert(done.push(open_entry).drop_last() =~= done);
        if chars[at] == ',' {
            let ghost before = keywords.deep_view();
            let entry = trimmed_entry(list, chars.as_slice(), start, at);
            keywords.push(entry);
            proof {
                done = done.push(open_entry);
                assert(keywords.deep_view() =~= before.push(trimmed(open_entry)));
                assert(keywords.deep_view() =~= done.map_values(|entry: Seq<char>| trimmed(entry)));
                assert(chars@.subrange(at + 1, at + 1) =~= Seq::<char>::empty());
            }
            start = at + 1;
        } else {
            assert(chars@.subrange(start as int, at + 1) =~= open_entry.push(chars@[at as int]));
        }
        at += 1;
    }
    assert(chars@.take(at as int) =~= chars@);
    let ghost before = keywords.deep_view();
    let entry = trimmed_entry(list, chars.as_slice(), start, at);
    keywords.push(entry);
    assert(keywords.deep_view() =~= before.push(trimmed(chars@.subrange(start as int, at as int))));
    assert(keywords.deep_view() =~= keyword_list(list@));
    keywords
}

/// The keywords of a run: those that `list` lists, or none where no list is given.
pub open spec fn requested(list: Option<Seq<char>>) -> Seq<Seq<char>> {
    match list {
        Some(text) => keyword_list(text),
        None => Seq::empty(),
    }
}

/// Reads the keywords of a run: those that `list` lists, or none where no
/// list is given.
pub fn requested_keywords(list: Option<&str>) -> (keywords: Vec<String>)
    ensures
        keywords.deep_view() == requested(
            match list {
                Some(text) => Some(text@),
                None => None,
            },
        ),
{
    match list {
        Some(text) => parse_keywords(text),
        None => {
            let keywords: Vec<String> = Vec::new();
            assert(keywords.deep_view() =~= Seq::<Seq<char>>::empty());
            keywords
        },
    }
}

} // verus!
