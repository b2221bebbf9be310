//! Styled text lines and image handles of the terminal toolkit, as far as the
//! document engine touches them: it carries them through and reads a line's
//! plain text.

use ratatui::style::{Color, Stylize};
use ratatui::text::{Line, Span};
use ratatui_image::protocol::Protocol;
use vstd::prelude::*;

verus! {

/// `ratatui::text::Line`: one line of styled spans.
#[verifier::external_type_specification]
#[verifier::external_body]
pub struct ExLine<'a>(Line<'a>);

/// `ratatui_image::protocol::Protocol`: an image encoded for the terminal.
#[verifier::external_type_specification]
#[verifier::external_body]
pub struct ExProtocol(Protocol);

/// The characters that a line's spans hold, in order, as `Line`'s `Display`
/// writes them: without line endings.
pub uninterp spec fn line_text(line: Line<'_>) -> Seq<char>;

/// A text without its line endings: without every line feed, and without
/// the carriage return that stands directly before one.
pub open spec fn without_line_endings(text: Seq<char>) -> Seq<char>
    decreases text.len(),
{
    if text.len() == 0 {
        text
    } else if text[0] == '\n' {
        without_line_endings(text.drop_first())
    } else if text[0] == '\r' && text.len() > 1 && text[1] == '\n' {
        without_line_endings(text.subrange(2, text.len() as int))
    } else {
        seq![text[0]] + without_line_endings(text.drop_first())
    }
}

/// A text without a line feed has no line endings to lose.
pub proof fn lemma_without_line_endings(text: Seq<char>)
    requires
        !text.contains('\n'),
    ensures
        without_line_endings(text) == text,
    decreases text.len(),
{
    if text.len() > 0 {
        assert(text[0] != '\n') by {
            assert(text.contains(text[0]));
        }
        if text.len() > 1 {
            assert(text[1] != '\n') by {
                assert(text.contains(text[1]));
            }
        }
        let rest = text.drop_first();
        assert(!rest.contains('\n')) by {
            if rest.contains('\n') {
                let i = choose|i: int| 0 <= i < rest.len() && rest[i] == '\n';
                assert(text[i + 1] == '\n');
                assert(text.contains(text[i + 1]));
            }
        }
        lemma_without_line_endings(rest);
        assert(seq![text[0]] + rest =~= text);
    }
}

/// `Line::from(String)`: a line of unstyled text, one span for each line of
/// the text. The line's text is the text without its line endings.
#[verifier::external_body]
pub(crate) fn line_from_string<'a>(text: String) -> (line: Line<'a>)
    ensures
        line_text(line) == without_line_endings(text@),
{
    Line::from(text)
}

/// `Line`'s `to_string`: the text of a line without its styles.
#[verifier::external_body]
pub(crate) fn line_to_string(line: &Line<'_>) -> (text: String)
    ensures
        text@ == line_text(*line),
{
    line.to_string()
}

/// `Line`'s `==`: whether two lines have the same spans, styles and
/// alignment.
#[verifier::external_body]
pub(crate) fn line_eq(a: &Line<'_>, b: &Line<'_>) -> (same: bool)
    ensures
        same == (*a == *b),
{
    a == b
}

/// `Line::default`: a line without spans, whose text is empty.
#[verifier::external_body]
pub(crate) fn empty_line<'a>() -> (line: Line<'a>)
    ensures
        line_text(line) == Seq::<char>::empty(),
{
    Line::default()
}

/// `Line::from(Vec<Span>)`, `Color::from_str` and `Stylize::fg`: a line of
/// two spans, the first in the colour that `color` names, or unstyled where
/// it names none, the second unstyled. The line's text is the two texts one
/// after the other, each without its line endings.
#[verifier::external_body]
pub(crate) fn marked_line<'a>(marker: String, text: String, color: &str) -> (line: Line<'a>)
    ensures
        line_text(line) == without_line_endings(marker@) + without_line_endings(text@),
{
    let mark = match color.parse::<Color>() {
        Ok(color) => Span::from(marker).fg(color),
        Err(_) => Span::from(marker),
    };
    Line::from(vec![mark, Span::from(text)])
}

} // verus!
