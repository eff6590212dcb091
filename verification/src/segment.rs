//! Splitting a message body into plain and highlighted runs.
//!
//! Keywords are taken in the order given. Each one is looked up in what is
//! left of the body: where it occurs, the text before its first occurrence
//! becomes a plain run, the keyword a highlighted run, and the search for the
//! next keyword goes on behind it.

use vstd::prelude::*;
use vstd::string::StrSliceExecFns;
use crate::text::{chars_of, find_first, first_occurrence, lemma_first_occurrence_is_least, occurs_at};

verus! {

/// One run of the message body as it goes over the wire: a tag, the text, and
/// for a highlighted run a link target, which is empty.
#[derive(Debug, Clone, PartialEq, Eq)]
pub struct LarkTextContent {
    pub tag: String,
    pub text: String,
    pub href: Option<String>,
}

/// What a run holds, as sequences of characters.
pub ghost struct TextContentView {
    pub tag: Seq<char>,
    pub text: Seq<char>,
    pub href: Option<Seq<char>>,
}

impl View for LarkTextContent {
    type V = TextContentView;

    open spec fn view(&self) -> TextContentView {
        TextContentView {
            tag: self.tag@,
            text: self.text@,
            href: match self.href {
                Some(target) => Some(target@),
                None => None,
            },
        }
    }
}

impl DeepView for LarkTextContent {
    type V = TextContentView;

    open spec fn deep_view(&self) -> TextContentView {
        self@
    }
}

/// A run of ordinary text: tag `text`, no link target.
pub open spec fn plain_run(text: Seq<char>) -> TextContentView {
    TextContentView { tag: "text"@, text, href: None }
}

/// A highlighted run: tag `a`, with an empty link target that marks it as
/// highlighted without leading anywhere.
pub open spec fn highlight_run(text: Seq<char>) -> TextContentView {
    TextContentView { tag: "a"@, text, href: Some(Seq::empty()) }
}

/// The runs that `keywords`, taken in order, cut out of `remaining`.
pub open spec fn runs_of(remaining: Seq<char>, keywords: Seq<Seq<char>>) -> Seq<TextContentView>
    decreases keywords.len(),
{
    if keywords.len() == 0 {
        if remaining.len() == 0 {
            Seq::empty()
        } else {
            seq![plain_run(remaining)]
        }
    } else {
        let keyword = keywords[0];
        match first_occurrence(remaining, keyword) {
            Some(at) => {
                let before = remaining.subrange(0, at);
                let after = remaining.subrange(at + keyword.len(), remaining.len() as int);
                let head = if at == 0 {
                    seq![highlight_run(keyword)]
                } else {
                    seq![plain_run(before), highlight_run(keyword)]
                };
                head + runs_of(after, keywords.drop_first())
            },
            None => runs_of(remaining, keywords.drop_first()),
        }
    }
}

/// The runs of a message body `content` with `keywords` highlighted. With no
/// keywords the body is one plain run, also where it is empty.
pub open spec fn highlighted(content: Seq<char>, keywords: Seq<Seq<char>>) -> Seq<TextContentView> {
    if keywords.len() == 0 {
        seq![plain_run(content)]
    } else {
        runs_of(content, keywords)
    }
}

/// The texts of `runs`, one after the other.
pub open spec fn joined_text(runs: Seq<TextContentView>) -> Seq<char>
    decreases runs.len(),
{
    if runs.len() == 0 {
        Seq::empty()
    } else {
        runs[0].text + joined_text(runs.drop_first())
    }
}

/// The joined text of two sequences of runs, one after the other, is the
/// joined text of the first followed by that of the second.
pub proof fn lemma_joined_text_concat(first: Seq<TextContentView>, second: Seq<TextContentView>)
    ensures
        joined_text(first + second) == joined_text(first) + joined_text(second),
    decreases first.len(),
{
    if first.len() == 0 {
        assert(first + second =~= second);
        assert(joined_text(first) + joined_text(second) =~= joined_text(second));
    } else {
        lemma_joined_text_concat(first.drop_first(), second);
        assert((first + second).drop_first() =~= first.drop_first() + second);
        assert(joined_text(first + second) =~= joined_text(first) + joined_text(second));
    }
}

/// Whatever the keywords, the runs cut out of a text give that text back when
/// their texts are joined in order.
pub proof fn lemma_runs_rejoin(remaining: Seq<char>, keywords: Seq<Seq<char>>)
    ensures
        joined_text(runs_of(remaining, keywords)) == remaining,
    decreases keywords.len(),
{
    if keywords.len() == 0 {
        if remaining.len() > 0 {
            lemma_joined_text_single(plain_run(remaining));
        } else {
            assert(remaining =~= Seq::<char>::empty());
        }
    } else {
        let keyword = keywords[0];
        let rest = keywords.drop_first();
        match first_occurrence(remaining, keyword) {
            Some(at) => {
                lemma_first_occurrence_is_least(remaining, keyword);
                let before = remaining.subrange(0, at);
                let after = remaining.subrange(at + keyword.len(), remaining.len() as int);
                let head = if at == 0 {
                    seq![highlight_run(keyword)]
                } else {
                    seq![plain_run(before), highlight_run(keyword)]
                };
                lemma_runs_rejoin(after, rest);
                lemma_joined_text_concat(head, runs_of(after, rest));
                lemma_joined_text_single(highlight_run(keyword));
                if at != 0 {
                    lemma_joined_text_concat(seq![plain_run(before)], seq![highlight_run(keyword)]);
                    lemma_joined_text_single(plain_run(before));
                    assert(head =~= seq![plain_run(before)] + seq![highlight_run(keyword)]);
                }
                assert(joined_text(head) =~= before + keyword);
                assert(remaining =~= before + remaining.subrange(at, at + keyword.len()) + after);
            },
            None => {
                lemma_runs_rejoin(remaining, rest);
            },
        }
    }
}

/// The joined text of a single run is its text.
pub proof fn lemma_joined_text_single(run: TextContentView)
    ensures
        joined_text(seq![run]) == run.text,
{
    assert(seq![run].drop_first() =~= Seq::<TextContentView>::empty());
    assert(joined_text(seq![run]) =~= run.text + joined_text(Seq::<TextContentView>::empty()));
    assert(run.text + Seq::<char>::empty() =~= run.text);
}

/// With no keywords the body is a single plain run that holds all of it.
pub proof fn lemma_no_keywords_one_plain_run(content: Seq<char>)
    ensures
        highlighted(content, Seq::empty()) == seq![plain_run(content)],
{
}

/// Joined in order, the texts of the runs of a message body are that body,
/// whatever the keywords.
pub proof fn lemma_highlighted_rejoins(content: Seq<char>, keywords: Seq<Seq<char>>)
    ensures
        joined_text(highlighted(content, keywords)) == content,
{
    if keywords.len() == 0 {
        lemma_joined_text_single(plain_run(content));
    } else {
        lemma_runs_rejoin(content, keywords);
    }
}

/// The number of highlighted runs among `runs`: those with a link target.
pub open spec fn highlight_count(runs: Seq<TextContentView>) -> nat
    decreases runs.len(),
{
    if runs.len() == 0 {
        0
    } else {
        highlight_count(runs.drop_last()) + if runs.last().href is Some {
            1nat
        } else {
            0nat
        }
    }
}

/// The highlighted runs of two sequences of runs, one after the other, are
/// those of the first and those of the second.
pub proof fn lemma_highlight_count_concat(first: Seq<TextContentView>, second: Seq<TextContentView>)
    ensures
        highlight_count(first + second) == highlight_count(first) + highlight_count(second),
    decreases second.len(),
{
    if second.len() == 0 {
        assert(first + second =~= first);
    } else {
        lemma_highlight_count_concat(first, second.drop_last());
        assert((first + second).drop_last() =~= first + second.drop_last());
    }
}

/// A single run counts as highlighted where it has a link target.
pub proof fn lemma_highlight_count_single(run: TextContentView)
    ensures
        highlight_count(seq![run]) == if run.href is Some {
            1nat
        } else {
            0nat
        },
{
    assert(seq![run].drop_last() =~= Seq::<TextContentView>::empty());
    assert(highlight_count(seq![run].drop_last()) == 0);
}

/// The runs cut out of a text hold at most one highlighted run for each keyword.
pub proof fn lemma_runs_highlights_at_most_keywords(remaining: Seq<char>, keywords: Seq<Seq<char>>)
    ensures
        highlight_count(runs_of(remaining, keywords)) <= keywords.len(),
    decreases keywords.len(),
{
    if keywords.len() == 0 {
        if remaining.len() > 0 {
            lemma_highlight_count_single(plain_run(remaining));
        }
    } else {
        let keyword = keywords[0];
        let rest = keywords.drop_first();
        match first_occurrence(remaining, keyword) {
            Some(at) => {
                lemma_first_occurrence_is_least(remaining, keyword);
                let before = remaining.subrange(0, at);
                let after = remaining.subrange(at + keyword.len(), remaining.len() as int);
                let head = if at == 0 {
                    seq![highlight_run(keyword)]
                } else {
                    seq![plain_run(before), highlight_run(keyword)]
                };
                lemma_runs_highlights_at_most_keywords(after, rest);
                lemma_highlight_count_concat(head, runs_of(after, rest));
                lemma_highlight_count_single(highlight_run(keyword));
                if at != 0 {
                    lemma_highlight_count_single(plain_run(before));
                    lemma_highlight_count_concat(
                        seq![plain_run(before)],
                        seq![highlight_run(keyword)],
                    );
                    assert(head =~= seq![plain_run(before)] + seq![highlight_run(keyword)]);
                }
                assert(highlight_count(head) == 1);
            },
            None => {
                lemma_runs_highlights_at_most_keywords(remaining, rest);
            },
        }
    }
}

/// A keyword gives at most one highlighted run: a message body never has more
/// highlighted runs than there are keywords.
pub proof fn lemma_highlights_at_most_keywords(content: Seq<char>, keywords: Seq<Seq<char>>)
    ensures
        highlight_count(highlighted(content, keywords)) <= keywords.len(),
{
    if keywords.len() == 0 {
        lemma_highlight_count_single(plain_run(content));
    } else {
        lemma_runs_highlights_at_most_keywords(content, keywords);
    }
}

/// A message body that is not empty has at least one run.
pub proof fn lemma_body_of_content_is_not_empty(content: Seq<char>, keywords: Seq<Seq<char>>)
    requires
        content.len() > 0,
    ensures
        highlighted(content, keywords).len() > 0,
{
    lemma_highlighted_rejoins(content, keywords);
}

impl LarkTextContent {
    /// A run of ordinary text.
    pub fn plain(text: String) -> (run: LarkTextContent)
        ensures
            run@ == plain_run(text@),
    {
        LarkTextContent { tag: "text".to_owned(), text, href: None }
    }

    /// A highlighted run.
    pub fn highlight(text: String) -> (run: LarkTextContent)
        ensures
            run@ == highlight_run(text@),
    {
        proof {
            reveal_strlit("");
        }
        let target = "".to_owned();
        assert(target@ =~= Seq::<char>::empty());
        LarkTextContent { tag: "a".to_owned(), text, href: Some(target) }
    }
}

/// Splits `content` into runs, highlighting `keywords` in the order given.
///
/// Each keyword is searched in what the keywords before it have left: a
/// keyword that is given twice can highlight two occurrences, and one that
/// does not occur leaves no run. With no keywords at all the whole of
/// `content` is one plain run.
pub fn process_content_with_keywords(content: &str, keywords: &[String]) -> (runs: Vec<
    LarkTextContent,
>)
    ensures
        runs.deep_view() == highlighted(content@, keywords.deep_view()),
        keywords@.len() == 0 ==> runs.deep_view() == seq![plain_run(content@)],
        joined_text(runs.deep_view()) == content@,
{
    proof {
        lemma_highlighted_rejoins(content@, keywords.deep_view());
    }
    let mut runs: Vec<LarkTextContent> = Vec::new();
    if keywords.len() == 0 {
        runs.push(LarkTextContent::plain(content.to_owned()));
        assert(runs.deep_view() =~= seq![plain_run(content@)]);
        return runs;
    }
    let ghost wanted = keywords.deep_view();
    let mut remaining: &str = content;
    let mut next: usize = 0;
    assert(runs.deep_view() + runs_of(remaining@, wanted.skip(0)) =~= runs_of(content@, wanted)) by {
        assert(wanted.skip(0) =~= wanted);
    }
    while next < keywords.len()
        invariant
            wanted == keywords.deep_view(),
            next <= keywords.len(),
            runs.deep_view() + runs_of(remaining@, wanted.skip(next as int)) == runs_of(
                content@,
                wanted,
            ),
        decreases keywords.len() - next,
    {
        let keyword: &String = &keywords[next];
        let hay = chars_of(remaining);
        let needle = chars_of(keyword.as_str());
        let ghost before_runs = runs.deep_view();
        let ghost rest = wanted.skip(next as int);
        assert(rest.len() > 0 && rest[0] == needle@);
        assert(rest.drop_first() =~= wanted.skip(next + 1));
        match find_first(hay.as_slice(), needle.as_slice()) {
            Some(at) => {
                proof {
                    lemma_first_occurrence_is_least(hay@, needle@);
                }
                if at > 0 {
                    let before = remaining.substring_char(0, at).to_owned();
                    runs.push(LarkTextContent::plain(before));
                }
                runs.push(LarkTextContent::highlight(keyword.clone()));
                let end: usize = hay.len();
                assert(occurs_at(hay@, needle@, at as int));
                remaining = remaining.substring_char(at + needle.len(), end);
                assert(runs.deep_view() + runs_of(remaining@, wanted.skip(next + 1))
                    =~= before_runs + runs_of(hay@, rest));
            },
            None => {},
        }
        next += 1;
    }
    assert(wanted.skip(next as int).len() == 0);
    if !remaining.is_empty() {
        let ghost before_runs = runs.deep_view();
        runs.push(LarkTextContent::plain(remaining.to_owned()));
        assert(runs.deep_view() =~= before_runs + seq![plain_run(remaining@)]);
    } else {
        assert(runs.deep_view() + Seq::<TextContentView>::empty() =~= runs.deep_view());
    }
    runs
}

} // verus!
