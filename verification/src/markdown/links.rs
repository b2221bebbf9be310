//! Links in the text of a rendered line: where they stand, what they point
//! at, and how the line shows them.

use crate::equality::{extras_view, LineExtraView};
use crate::markdown::blocks::group_text;
use crate::patterns::{
    are_matches_of, is_match_of, regex_captures, regex_matches, spans_of, starts_with, Pattern,
    TextMatch,
};
use crate::search::{column_at, column_of};
use crate::seqs::{first_where, lemma_first_where_is};
use crate::styled::{line_text, line_to_string};
use crate::widget_sources::LineExtra;
use ratatui::style::Color;
use ratatui::style::Stylize;
use ratatui::text::{Line, Span};
use vstd::prelude::*;
use vstd::string::StringExecFns;
use vstd::utf8::{decode_utf8, encode_utf8, is_char_boundary};

verus! {

/// The colour of the brackets of a markdown link, in the terminal's
/// palette.
pub const COLOR_DECOR: u8 = 237;

/// The colour of the label of a markdown link.
pub const COLOR_TEXT: u8 = 15;

/// The colour of an address.
pub const COLOR_LINK: u8 = 32;

/// An address: `http://` or `https://`, and what follows up to white space
/// or a closing bracket.
pub const URL_PATTERN: &'static str = r"https?://[^\s)]+";

/// The opening of a markdown link at the end of a text: a label in square
/// brackets and an opening round bracket.
pub const LABEL_PATTERN: &'static str = r"\[([^\[\]]*)\]\($";

/// `ratatui::text::Span`: a piece of text with one style.
#[verifier::external_type_specification]
#[verifier::external_body]
pub struct ExSpan<'a>(Span<'a>);

/// `Span::from`: a span of unstyled text.
#[verifier::external_body]
pub(crate) fn span_plain<'a>(text: String) -> (span: Span<'a>) {
    Span::from(text)
}

/// `Span::from` and `Stylize::fg`: a span of text in a colour of the
/// terminal's palette.
#[verifier::external_body]
pub(crate) fn span_colored<'a>(text: String, color: u8) -> (span: Span<'a>) {
    Span::from(text).fg(Color::Indexed(color))
}

/// `Span::from`, `Stylize::fg` and `Stylize::underlined`: a span of
/// underlined text in a colour of the terminal's palette.
#[verifier::external_body]
pub(crate) fn span_underlined<'a>(text: String, color: u8) -> (span: Span<'a>) {
    Span::from(text).fg(Color::Indexed(color)).underlined()
}

/// `Line::from(Vec<Span>)`: the line of the spans.
#[verifier::external_body]
pub(crate) fn line_of_spans<'a>(spans: Vec<Span<'a>>) -> (line: Line<'a>) {
    Line::from(spans)
}

/// Whether `piece` is what lies between two byte offsets of a text: the
/// text in that range, where both offsets stand between characters and in
/// this order.
pub open spec fn is_sub_text(text: Seq<char>, from: usize, to: usize, piece: Option<String>) -> bool {
    from <= to && to <= encode_utf8(text).len() && is_char_boundary(encode_utf8(text), from as int)
        && is_char_boundary(encode_utf8(text), to as int) ==> (piece matches Some(part) && part@
        == decode_utf8(encode_utf8(text).subrange(from as int, to as int)))
}

/// `str::get`: the text between two byte offsets, where both stand between
/// characters and in this order.
#[verifier::external_body]
pub(crate) fn sub_text(text: &str, from: usize, to: usize) -> (piece: Option<String>)
    ensures
        is_sub_text(text@, from, to, piece),
{
    text.get(from..to).map(|part| part.to_owned())
}

/// The two patterns that find links.
pub struct LinkPatterns {
    pub url: Pattern,
    pub label: Pattern,
}

impl LinkPatterns {
    /// Whether the patterns are the ones that find addresses and the
    /// openings of markdown links.
    pub open spec fn wf(&self) -> bool {
        &&& self.url.source() == URL_PATTERN@
        &&& !self.url.ignores_case()
        &&& self.label.source() == LABEL_PATTERN@
        &&& !self.label.ignores_case()
    }

    /// The patterns that find addresses and the openings of markdown links.
    pub fn new() -> (patterns: LinkPatterns)
        ensures
            patterns.wf(),
    {
        LinkPatterns { url: Pattern::new(URL_PATTERN), label: Pattern::new(LABEL_PATTERN) }
    }
}

/// The byte ranges of the addresses in a text.
pub open spec fn link_spans(text: Seq<char>) -> Seq<(usize, usize)> {
    regex_matches(URL_PATTERN@, false, text)
}

/// The text in a byte range of a text.
pub open spec fn span_text(text: Seq<char>, span: (usize, usize)) -> Seq<char> {
    decode_utf8(encode_utf8(text).subrange(span.0 as int, span.1 as int))
}

/// The addresses in a text, in their order.
pub open spec fn url_texts(source: Seq<char>) -> Seq<Seq<char>> {
    link_spans(source).map_values(|span: (usize, usize)| span_text(source, span))
}

/// The texts that begin with `partial`.
pub open spec fn begins_with(partial: Seq<char>) -> spec_fn(Seq<char>) -> bool {
    |text: Seq<char>| partial.is_prefix_of(text)
}

/// The whole address of which a line shows `partial`. An address that
/// ends before the line does is whole. One that the end of the line cuts is
/// the first address of the source text that begins with it; it stands for
/// itself where the source holds none.
pub open spec fn full_url(partial: Seq<char>, cut: bool, source: Seq<char>) -> Seq<char> {
    let at = first_where(url_texts(source), begins_with(partial));
    if cut && at < url_texts(source).len() {
        url_texts(source)[at]
    } else {
        partial
    }
}

/// A column held to the range of `u16`.
pub open spec fn held_column(column: nat) -> u16 {
    if column > u16::MAX {
        u16::MAX
    } else {
        column as u16
    }
}

/// Whether the address in the byte range `span` of a line reaches the end
/// of the line.
pub open spec fn is_cut(line: Seq<char>, span: (usize, usize)) -> bool {
    span.1 >= encode_utf8(line).len() as usize
}

/// The extra of the address in the byte range `span` of a line: the whole
/// address, and the columns at which the line shows it.
pub open spec fn link_extra(line: Seq<char>, span: (usize, usize), source: Seq<char>) -> LineExtraView {
    LineExtraView::Link(
        full_url(span_text(line, span), is_cut(line, span), source),
        held_column(column_at(line, span.0 as int)),
        held_column(column_at(line, span.1 as int)),
    )
}

/// The extras of the addresses in a line of a text, in their order.
pub open spec fn link_extras(line: Seq<char>, source: Seq<char>) -> Seq<LineExtraView> {
    link_spans(line).map_values(|span: (usize, usize)| link_extra(line, span, source))
}

/// A column held to the range of `u16`.
pub fn hold_column(column: usize) -> (held: u16)
    ensures
        held == held_column(column as nat),
{
    if column > 65535 {
        65535
    } else {
        column as u16
    }
}

/// The whole address of which a line shows `partial`, cut by its end: the
/// first of the addresses `found` in the source text that begins with it.
pub fn whole_url(partial: &String, found: &Vec<TextMatch>, source: &str) -> (url: String)
    requires
        are_matches_of(found@, source@),
        spans_of(found@) == link_spans(source@),
    ensures
        url@ == full_url(partial@, true, source@),
{
    let n = found.len();
    let mut j: usize = 0;
    proof {
        assert(url_texts(source@).len() == n);
    }
    while j < n
        invariant
            n == found@.len(),
            j <= n,
            are_matches_of(found@, source@),
            spans_of(found@) == link_spans(source@),
            forall|k: int| 0 <= k < j ==> !begins_with(partial@)(#[trigger] url_texts(source@)[k]),
        decreases n - j,
    {
        proof {
            assert(is_match_of(found@[j as int], source@));
            assert(spans_of(found@)[j as int] == (found@[j as int].start, found@[j as int].end));
            assert(url_texts(source@)[j as int] == found@[j as int].text@);
        }
        if starts_with(found[j].text.as_str(), partial.as_str()) {
            proof {
                lemma_first_where_is(url_texts(source@), begins_with(partial@), j as int);
            }
            return found[j].text.clone();
        }
        j += 1;
    }
    proof {
        lemma_first_where_is(url_texts(source@), begins_with(partial@), n as int);
    }
    partial.clone()
}

/// Appends the spans of the text before an address. Where the text ends
/// with the opening of a markdown link, its brackets and its label get
/// their colours, and the result is `true`.
fn push_before<'a>(spans: &mut Vec<Span<'a>>, before: String, label: &Pattern) -> (opened: bool)
    ensures
        opened == (regex_captures(label.source(), label.ignores_case(), before@) is Some),
        final(spans)@.len() >= old(spans)@.len(),
        final(spans)@.subrange(0, old(spans)@.len() as int) == old(spans)@,
{
    match label.captures(before.as_str()) {
        Some(groups) => {
            let whole = group_text(&groups, 0);
            let name = group_text(&groups, 1);
            let length = before.as_str().len();
            let opening = whole.as_str().len();
            if opening <= length {
                match sub_text(before.as_str(), 0, length - opening) {
                    Some(head) => {
                        if !head.as_str().is_empty() {
                            spans.push(span_plain(head));
                        }
                    },
                    None => {},
                }
            }
            spans.push(span_colored(String::from_str("["), COLOR_DECOR));
            if !name.as_str().is_empty() {
                spans.push(span_colored(name, COLOR_TEXT));
            }
            spans.push(span_colored(String::from_str("]"), COLOR_DECOR));
            spans.push(span_colored(String::from_str("("), COLOR_DECOR));
            assert(spans@.subrange(0, old(spans)@.len() as int) =~= old(spans)@);
            true
        },
        None => {
            if !before.as_str().is_empty() {
                spans.push(span_plain(before));
            }
            assert(spans@.subrange(0, old(spans)@.len() as int) =~= old(spans)@);
            false
        },
    }
}

/// Finds the addresses in a rendered line of the text `source`. The line
/// comes back with an extra for each address, which holds the whole address
/// and the columns at which the line shows it. A line without an address
/// comes back as it is; in any other, the addresses are underlined in their
/// colour, the brackets and labels of markdown links get theirs, and the
/// rest is unstyled. The text of the line stays what it was.
pub fn capture_line<'a>(line: Line<'a>, source: &str, patterns: &LinkPatterns) -> (captured: (
    Line<'a>,
    Vec<LineExtra>,
))
    requires
        patterns.wf(),
    ensures
        extras_view(captured.1@) == link_extras(line_text(line), source@),
        link_spans(line_text(line)).len() == 0 ==> captured.0 == line,
        line_text(captured.0) == line_text(line),
{
    let text = line_to_string(&line);
    let found = patterns.url.find_matches(text.as_str());
    let n = found.len();
    proof {
        assert(spans_of(found@).len() == n);
    }
    if n == 0 {
        let extras: Vec<LineExtra> = Vec::new();
        assert(extras_view(extras@) =~= link_extras(line_text(line), source@));
        return (line, extras);
    }
    let in_source = patterns.url.find_matches(source);
    let total = text.as_str().len();
    let mut extras: Vec<LineExtra> = Vec::new();
    let mut spans: Vec<Span<'a>> = Vec::new();
    let mut done: usize = 0;
    let mut i: usize = 0;
    while i < n
        invariant
            n == found@.len(),
            i <= n,
            text@ == line_text(line),
            total == encode_utf8(text@).len() as usize,
            are_matches_of(found@, text@),
            spans_of(found@) == link_spans(text@),
            are_matches_of(in_source@, source@),
            spans_of(in_source@) == link_spans(source@),
            patterns.wf(),
            extras@.len() == i,
            forall|k: int|
                0 <= k < i ==> (#[trigger] extras@[k])@ == link_extra(
                    text@,
                    link_spans(text@)[k],
                    source@,
                ),
        decreases n - i,
    {
        proof {
            assert(is_match_of(found@[i as int], text@));
            assert(spans_of(found@)[i as int] == (found@[i as int].start, found@[i as int].end));
        }
        let start = found[i].start;
        let end = found[i].end;
        let from = hold_column(column_of(text.as_str(), start));
        let to = hold_column(column_of(text.as_str(), end));
        let url = if end >= total {
            whole_url(&found[i].text, &in_source, source)
        } else {
            found[i].text.clone()
        };
        extras.push(LineExtra::Link(url, from, to));

        let opened = match sub_text(text.as_str(), done, start) {
            Some(before) => push_before(&mut spans, before, &patterns.label),
            None => false,
        };
        spans.push(span_underlined(found[i].text.clone(), COLOR_LINK));
        done = end;
        if opened && done < total {
            let closes = match sub_text(text.as_str(), done, done + 1) {
                Some(next) => starts_with(next.as_str(), ")"),
                None => false,
            };
            if closes {
                spans.push(span_colored(String::from_str(")"), COLOR_DECOR));
                done = done + 1;
            }
        }
        i += 1;
    }
    match sub_text(text.as_str(), done, total) {
        Some(rest) => {
            if !rest.as_str().is_empty() {
                spans.push(span_plain(rest));
            }
        },
        None => {},
    }
    assert(extras_view(extras@) =~= link_extras(line_text(line), source@));
    let styled = line_of_spans(spans);
    // The styled line is taken only where it reads as the line did.
    let shown = if line_to_string(&styled) == text {
        styled
    } else {
        line
    };
    (shown, extras)
}

} // verus!
