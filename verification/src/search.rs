//! Searching the text of a line: the matches of a regular expression become
//! extras whose offsets count display columns.

use crate::equality::{extras_view, LineExtraView};
use crate::patterns::{
    are_matches_of, is_match_of, regex_matches, spans_of, Pattern, TextMatch,
};
use crate::seqs::reversed;
use crate::styled::{line_text, line_to_string};
use crate::widget_sources::{LineExtra, WidgetSource, WidgetSourceData};
use unicode_width::UnicodeWidthStr;
use vstd::prelude::*;
use vstd::utf8::{decode_utf8, encode_utf8, is_char_boundary};

verus! {

/// The number of terminal columns that a text takes, as `unicode_width`
/// counts them.
pub uninterp spec fn str_width(text: Seq<char>) -> nat;

/// The display column at which the byte `offset` of `haystack` stands: the
/// width of the text before it.
pub open spec fn column_at(haystack: Seq<char>, offset: int) -> nat {
    str_width(decode_utf8(encode_utf8(haystack).subrange(0, offset)))
}

/// The extra that marks the match `m` in `haystack`.
pub open spec fn search_extra(haystack: Seq<char>, m: TextMatch) -> LineExtra {
    LineExtra::SearchMatch(
        column_at(haystack, m.start as int) as usize,
        column_at(haystack, m.end as int) as usize,
        m.text,
    )
}

/// The extras that mark the matches `found` in `haystack`, in their order.
pub open spec fn search_extras_of(haystack: Seq<char>, found: Seq<TextMatch>) -> Seq<LineExtra> {
    found.map_values(|m: TextMatch| search_extra(haystack, m))
}

/// The extra that marks a match in the byte range `span` of `haystack`: the
/// columns at which the match begins and ends, and the text in the range.
pub open spec fn match_extra(haystack: Seq<char>, span: (usize, usize)) -> LineExtraView {
    LineExtraView::SearchMatch(
        column_at(haystack, span.0 as int) as usize,
        column_at(haystack, span.1 as int) as usize,
        decode_utf8(encode_utf8(haystack).subrange(span.0 as int, span.1 as int)),
    )
}

/// The extras that mark the matches in the byte ranges `spans`.
pub open spec fn match_extras(haystack: Seq<char>, spans: Seq<(usize, usize)>) -> Seq<LineExtraView> {
    spans.map_values(|span: (usize, usize)| match_extra(haystack, span))
}

/// A search as plain values: the text that the regular expression was
/// written as, and whether it matches without regard to case.
pub open spec fn search_of(re: Option<Pattern>) -> Option<(Seq<char>, bool)> {
    match re {
        Some(pattern) => Some((pattern.source(), pattern.ignores_case())),
        None => None,
    }
}

/// The extras that a search adds to a line with the text `haystack`: one for
/// each match of the regular expression, none without one.
pub open spec fn search_result(haystack: Seq<char>, search: Option<(Seq<char>, bool)>) -> Seq<
    LineExtraView,
> {
    match search {
        Some((source, ignores_case)) => match_extras(
            haystack,
            regex_matches(source, ignores_case, haystack),
        ),
        None => Seq::empty(),
    }
}

/// The extras of matches with their text are the extras of their byte
/// ranges.
pub proof fn lemma_search_extras_view(haystack: Seq<char>, found: Seq<TextMatch>)
    requires
        are_matches_of(found, haystack),
    ensures
        extras_view(search_extras_of(haystack, found)) == match_extras(haystack, spans_of(found)),
{
    assert forall|i: int| 0 <= i < found.len() implies extras_view(
        search_extras_of(haystack, found),
    )[i] == match_extras(haystack, spans_of(found))[i] by {
        assert(is_match_of(found[i], haystack));
    }
    assert(extras_view(search_extras_of(haystack, found)) =~= match_extras(
        haystack,
        spans_of(found),
    ));
}

/// `UnicodeWidthStr::width`: the number of terminal columns that `text`
/// takes.
#[verifier::external_body]
pub(crate) fn display_width(text: &str) -> (width: usize)
    ensures
        width == str_width(text@),
{
    text.width()
}

/// The display column at which the byte `offset` of `text` stands.
pub fn column_of(text: &str, offset: usize) -> (column: usize)
    requires
        is_char_boundary(encode_utf8(text@), offset as int),
    ensures
        column == column_at(text@, offset as int),
{
    let (before, _) = text.split_at(offset);
    proof {
        vstd::utf8::encode_utf8_decode_utf8(before@);
    }
    display_width(before)
}

/// The extras that mark the matches `found` in `text`: for each, the
/// columns at which it begins and ends, and the text matched.
pub fn search_extras(text: &str, found: &Vec<TextMatch>) -> (extras: Vec<LineExtra>)
    requires
        are_matches_of(found@, text@),
    ensures
        extras@ == search_extras_of(text@, found@),
{
    let mut extras: Vec<LineExtra> = Vec::new();
    let n = found.len();
    let mut i: usize = 0;
    while i < n
        invariant
            n == found@.len(),
            i <= n,
            are_matches_of(found@, text@),
            extras@ == search_extras_of(text@, found@.subrange(0, i as int)),
        decreases n - i,
    {
        assert(is_match_of(found@[i as int], text@));
        let start = column_of(text, found[i].start);
        let end = column_of(text, found[i].end);
        extras.push(LineExtra::SearchMatch(start, end, found[i].text.clone()));
        i += 1;
        assert(extras@ =~= search_extras_of(text@, found@.subrange(0, i as int)));
    }
    assert(found@.subrange(0, n as int) =~= found@);
    extras
}

/// The extras that are no search matches.
pub open spec fn is_no_search_match() -> spec_fn(LineExtra) -> bool {
    |extra: LineExtra| !(extra is SearchMatch)
}

/// `extras` without the search matches among them.
pub open spec fn without_search(extras: Seq<LineExtra>) -> Seq<LineExtra> {
    extras.filter(is_no_search_match())
}

/// Whether `after` are the extras of a line with the text `text` once a
/// search has run over it: those of `before` that are no search matches, as
/// they were, and after them the extras of the search.
pub open spec fn searched_extras(
    before: Seq<LineExtra>,
    after: Seq<LineExtra>,
    text: Seq<char>,
    search: Option<(Seq<char>, bool)>,
) -> bool {
    &&& after.len() == without_search(before).len() + search_result(text, search).len()
    &&& after.subrange(0, without_search(before).len() as int) == without_search(before)
    &&& extras_view(after.subrange(without_search(before).len() as int, after.len() as int))
        == search_result(text, search)
}

/// Whether `after` is the unit `before` once a search has run over it: a
/// text line has lost its search matches and gained the extras of the
/// search; any other unit is as it was.
pub open spec fn searched_unit(
    before: WidgetSource<'_>,
    after: WidgetSource<'_>,
    search: Option<(Seq<char>, bool)>,
) -> bool {
    &&& after.id == before.id
    &&& after.height == before.height
    &&& match before.data {
        WidgetSourceData::Line(line, extras) => after.data matches WidgetSourceData::Line(
            same,
            found_extras,
        ) && same == line && searched_extras(extras@, found_extras@, line_text(line), search),
        _ => after.data == before.data,
    }
}

/// Drops the search matches from `extras` and keeps the rest in their
/// order.
pub fn drop_search_matches(extras: &mut Vec<LineExtra>)
    ensures
        final(extras)@ == without_search(old(extras)@),
{
    let mut rest: Vec<LineExtra> = Vec::new();
    core::mem::swap(extras, &mut rest);
    let ghost all = rest@;
    let mut back = reversed(rest);
    assert(back@ =~= all.reverse().subrange(0, back@.len() as int));
    while back.len() > 0
        invariant
            back@.len() <= all.len(),
            back@ == all.reverse().subrange(0, back@.len() as int),
            extras@ == without_search(all.subrange(0, all.len() - back@.len())),
        decreases back@.len(),
    {
        let ghost done = all.len() - back@.len();
        let extra = back.pop().unwrap();
        assert(extra == all[done]);
        proof {
            assert(all.subrange(0, done + 1).drop_last() =~= all.subrange(0, done));
            reveal_with_fuel(Seq::filter, 2);
        }
        match extra {
            LineExtra::SearchMatch(_, _, _) => {},
            _ => {
                extras.push(extra);
            },
        }
        assert(back@ =~= all.reverse().subrange(0, back@.len() as int));
    }
    assert(all.subrange(0, all.len() as int) =~= all);
}

impl WidgetSourceData<'_> {
    /// Runs a search over a text line: the search matches it had give way
    /// to the matches of `re` in its text, after its other extras. Without a
    /// regular expression none are added. Any other unit stays as it is.
    pub fn add_search(&mut self, re: &Option<Pattern>)
        ensures
            match *old(self) {
                WidgetSourceData::Line(line, extras) => *final(self) matches WidgetSourceData::Line(
                    same,
                    after,
                ) && same == line && searched_extras(
                    extras@,
                    after@,
                    line_text(line),
                    search_of(*re),
                ),
                _ => *final(self) == *old(self),
            },
    {
        match self {
            WidgetSourceData::Line(line, extras) => {
                let ghost before = extras@;
                let line_string = line_to_string(line);
                drop_search_matches(extras);
                let ghost kept = extras@;
                match re {
                    Some(re) => {
                        let found = re.find_matches(line_string.as_str());
                        let mut more = search_extras(line_string.as_str(), &found);
                        let ghost added = more@;
                        extras.append(&mut more);
                        proof {
                            lemma_search_extras_view(line_text(*line), found@);
                            assert(extras@.subrange(0, kept.len() as int) =~= kept);
                            assert(extras@.subrange(kept.len() as int, extras@.len() as int)
                                =~= added);
                        }
                    },
                    None => {
                        assert(extras@.subrange(0, kept.len() as int) =~= kept);
                        assert(extras_view(
                            extras@.subrange(kept.len() as int, extras@.len() as int),
                        ) =~= Seq::<LineExtraView>::empty());
                    },
                }
                assert(searched_extras(before, extras@, line_text(*line), search_of(*re)));
            },
            _ => {},
        }
    }
}

impl WidgetSource<'_> {
    /// Runs a search over the unit: see `WidgetSourceData::add_search`.
    pub fn add_search(&mut self, re: &Option<Pattern>)
        ensures
            searched_unit(*old(self), *final(self), search_of(*re)),
    {
        self.data.add_search(re);
    }
}

} // verus!
