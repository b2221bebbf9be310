//! Regular expressions together with the text they were written as, and
//! the lines of a text.

use regex::Regex;
use regex::RegexBuilder;
use vstd::prelude::*;
use vstd::utf8::{decode_utf8, encode_utf8, is_char_boundary};

verus! {

/// `regex::Regex`: a compiled regular expression.
#[verifier::external_type_specification]
#[verifier::external_body]
pub struct ExRegex(Regex);

/// A regular expression: the text it was written as, whether it matches
/// without regard to case, and what the text compiled to, if it is a regular
/// expression at all.
pub struct Pattern {
    source: String,
    ignores_case: bool,
    regex: Option<Regex>,
}

/// One match of a search: the byte range in the text searched, and the text
/// matched.
pub struct TextMatch {
    pub start: usize,
    pub end: usize,
    pub text: String,
}

/// The groups that the regular expression written as `source` captures at
/// its first match in `haystack`: the whole match first, then each group in
/// the order of its opening bracket, `None` for a group that took no part.
/// `None` where the expression does not match, or is none.
pub uninterp spec fn regex_captures(source: Seq<char>, ignores_case: bool, haystack: Seq<char>) -> Option<
    Seq<Option<Seq<char>>>,
>;

/// The byte ranges of the successive matches of the regular expression
/// written as `source` in `haystack`, none overlapping another; no range
/// where the text is no regular expression.
pub uninterp spec fn regex_matches(source: Seq<char>, ignores_case: bool, haystack: Seq<char>) -> Seq<
    (usize, usize),
>;

/// A line as it stood before a line feed: without the carriage return that
/// ends it, if one does.
pub open spec fn without_carriage_return(line: Seq<char>) -> Seq<char> {
    if line.len() > 0 && line.last() == '\r' {
        line.drop_last()
    } else {
        line
    }
}

/// The lines of `text` after the characters `current` of a line that has
/// begun.
pub open spec fn lines_after(current: Seq<char>, text: Seq<char>) -> Seq<Seq<char>>
    decreases text.len(),
{
    if text.len() == 0 {
        if current.len() > 0 {
            seq![current]
        } else {
            Seq::empty()
        }
    } else if text[0] == '\n' {
        seq![without_carriage_return(current)] + lines_after(Seq::empty(), text.drop_first())
    } else {
        lines_after(current.push(text[0]), text.drop_first())
    }
}

/// The lines of a text: what stands between its line feeds, each line
/// without the carriage return that may stand before its line feed. What
/// follows the last line feed is a line if it is not empty.
pub open spec fn text_lines(text: Seq<char>) -> Seq<Seq<char>> {
    lines_after(Seq::empty(), text)
}

/// Captured groups as plain texts.
pub open spec fn groups_view(groups: Option<Vec<Option<String>>>) -> Option<Seq<Option<Seq<char>>>> {
    match groups {
        Some(texts) => Some(
            texts@.map_values(
                |text: Option<String>|
                    match text {
                        Some(text) => Some(text@),
                        None => None,
                    },
            ),
        ),
        None => None,
    }
}

/// Lines as plain texts.
pub open spec fn lines_view(lines: Seq<String>) -> Seq<Seq<char>> {
    lines.map_values(|line: String| line@)
}

/// The byte ranges of matches.
pub open spec fn spans_of(found: Seq<TextMatch>) -> Seq<(usize, usize)> {
    found.map_values(|m: TextMatch| (m.start, m.end))
}

/// Whether `m` is a byte range of `haystack` between two character
/// boundaries, together with the text in that range.
pub open spec fn is_match_of(m: TextMatch, haystack: Seq<char>) -> bool {
    let bytes = encode_utf8(haystack);
    &&& m.start <= m.end <= bytes.len()
    &&& is_char_boundary(bytes, m.start as int)
    &&& is_char_boundary(bytes, m.end as int)
    &&& m.text@ == decode_utf8(bytes.subrange(m.start as int, m.end as int))
}

/// Whether `found` are ranges of `haystack` with their text, each ending
/// before the next begins.
pub open spec fn are_matches_of(found: Seq<TextMatch>, haystack: Seq<char>) -> bool {
    &&& forall|i: int| 0 <= i < found.len() ==> is_match_of(#[trigger] found[i], haystack)
    &&& forall|i: int, j: int|
        0 <= i < j < found.len() ==> (#[trigger] found[i]).end <= (#[trigger] found[j]).start
}

/// Whether `c` has a meaning of its own in a regular expression.
pub open spec fn is_meta_character(c: char) -> bool {
    c == '\\' || c == '.' || c == '+' || c == '*' || c == '?' || c == '(' || c == ')' || c == '|'
        || c == '[' || c == ']' || c == '{' || c == '}' || c == '^' || c == '$' || c == '#' || c
        == '&' || c == '-' || c == '~'
}

/// `text` with a backslash before each character that has a meaning of its
/// own in a regular expression.
pub open spec fn escaped_text(text: Seq<char>) -> Seq<char> {
    text.flat_map(
        |c: char|
            if is_meta_character(c) {
                seq!['\\', c]
            } else {
                seq![c]
            },
    )
}

/// `regex::escape`: the pattern that matches `text` literally. Each
/// character that has a meaning of its own in a regular expression gets a
/// backslash before it.
#[verifier::external_body]
pub(crate) fn escape(text: &str) -> (pattern: String)
    ensures
        pattern@ == escaped_text(text@),
{
    regex::escape(text)
}

impl Pattern {
    /// The text that the expression was written as.
    pub closed spec fn source(&self) -> Seq<char> {
        self.source@
    }

    /// Whether the expression matches without regard to case.
    pub closed spec fn ignores_case(&self) -> bool {
        self.ignores_case
    }

    /// `RegexBuilder::new`, `case_insensitive` and `build`: compiles the
    /// expression written as `source`. A text that is no regular expression
    /// gives a pattern that matches nothing.
    #[verifier::external_body]
    pub(crate) fn compile(source: &str, ignores_case: bool) -> (pattern: Pattern)
        ensures
            pattern.source() == source@,
            pattern.ignores_case() == ignores_case,
    {
        let regex = RegexBuilder::new(source).case_insensitive(ignores_case).build().ok();
        Pattern { source: source.to_owned(), ignores_case, regex }
    }

    /// `Regex::captures`: the groups of the first match of the expression in
    /// `haystack`.
    #[verifier::external_body]
    pub(crate) fn captures(&self, haystack: &str) -> (groups: Option<Vec<Option<String>>>)
        ensures
            groups_view(groups) == regex_captures(self.source(), self.ignores_case(), haystack@),
    {
        let found = self.regex.as_ref()?.captures(haystack)?;
        Some(found.iter().map(|group| group.map(|m| m.as_str().to_owned())).collect())
    }

    /// `Regex::find_iter`: the successive matches of the expression in
    /// `haystack`, none overlapping another, each with its byte range, which
    /// lies between character boundaries, and the text in it.
    #[verifier::external_body]
    pub(crate) fn find_matches(&self, haystack: &str) -> (found: Vec<TextMatch>)
        ensures
            spans_of(found@) == regex_matches(self.source(), self.ignores_case(), haystack@),
            are_matches_of(found@, haystack@),
    {
        let Some(regex) = self.regex.as_ref() else {
            return Vec::new();
        };
        regex.find_iter(haystack).map(
            |m| TextMatch { start: m.start(), end: m.end(), text: m.as_str().to_owned() },
        ).collect()
    }

    /// The regular expression written as `source`, which tells upper case
    /// from lower case.
    pub fn new(source: &str) -> (pattern: Pattern)
        ensures
            pattern.source() == source@,
            !pattern.ignores_case(),
    {
        Pattern::compile(source, false)
    }

    /// The regular expression that matches `needle` as it is written,
    /// without regard to case.
    pub fn literal(needle: &str) -> (pattern: Pattern)
        ensures
            pattern.source() == escaped_text(needle@),
            pattern.ignores_case(),
    {
        let source = escape(needle);
        Pattern::compile(source.as_str(), true)
    }
}

/// `str::lines`: the lines of `text`, each as a text of its own: split at
/// line feeds, without a carriage return directly before one, and without
/// an empty line after the last line feed.
#[verifier::external_body]
pub(crate) fn lines_of(text: &str) -> (lines: Vec<String>)
    ensures
        lines_view(lines@) == text_lines(text@),
{
    text.lines().map(|line| line.to_owned()).collect()
}

/// `str::starts_with`: whether `text` begins with `prefix`.
#[verifier::external_body]
pub(crate) fn starts_with(text: &str, prefix: &str) -> (begins: bool)
    ensures
        begins == prefix@.is_prefix_of(text@),
{
    text.starts_with(prefix)
}

} // verus!
