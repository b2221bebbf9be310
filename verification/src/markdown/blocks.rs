//! Splitting a markdown text into the blocks that the viewer treats apart:
//! headers and images, each on a line of its own, and the text between
//! them. What stands inside a code fence is text, whatever it looks like.

use crate::patterns::{
    groups_view, lines_of, lines_view, regex_captures, starts_with, text_lines, Pattern,
};
use vstd::prelude::*;
use vstd::string::StringExecFns;
use vstd::utf8::encode_utf8;

verus! {

/// A line that begins with one or more `#`: the run of `#`, then the text
/// after any white space.
pub const HEADER_PATTERN: &'static str = r"^(#+)\s*(.*)";

/// A line that is nothing but an image: its alternative text and its
/// address.
pub const IMAGE_PATTERN: &'static str = r"^!\[(.*?)\]\((.*?)\)$";

/// A line that opens or closes a code fence: after at most three spaces, a
/// run of three or more backticks or tildes.
pub const CODEFENCE_PATTERN: &'static str = r"^ {0,3}(`{3,}|~{3,})";

/// A piece of a markdown text.
#[derive(Debug, PartialEq)]
pub enum Block {
    /// A header: its tier, from 1 to 6, and its text.
    Header(u8, String),
    /// An image on a line of its own: its alternative text and its address.
    Image(String, String),
    /// Markdown text: one or more lines.
    Markdown(String),
}

/// A block as plain values.
pub enum BlockView {
    Header(u8, Seq<char>),
    Image(Seq<char>, Seq<char>),
    Markdown(Seq<char>),
}

impl View for Block {
    type V = BlockView;

    open spec fn view(&self) -> BlockView {
        match self {
            Block::Header(tier, text) => BlockView::Header(*tier, text@),
            Block::Image(alt, url) => BlockView::Image(alt@, url@),
            Block::Markdown(text) => BlockView::Markdown(text@),
        }
    }
}

/// Blocks as plain values.
pub open spec fn blocks_view(blocks: Seq<Block>) -> Seq<BlockView> {
    blocks.map_values(|block: Block| block@)
}

/// How far a text has been split: the blocks so far, the text lines
/// gathered for the next markdown block, and the run that opened the code
/// fence that the lines are in, if they are in one.
pub struct SplitView {
    pub blocks: Seq<BlockView>,
    pub current: Seq<char>,
    pub fence: Option<Seq<char>>,
}

/// The text of the group `index`; empty for a group that is absent or took
/// no part in the match.
pub open spec fn group(groups: Seq<Option<Seq<char>>>, index: int) -> Seq<char> {
    if 0 <= index < groups.len() {
        match groups[index] {
            Some(text) => text,
            None => Seq::empty(),
        }
    } else {
        Seq::empty()
    }
}

/// The tier of a header: the length of its run of `#` in bytes, six at
/// most.
pub open spec fn tier_of(run: Seq<char>) -> u8 {
    let length = encode_utf8(run).len() as usize;
    if length < 6 {
        length as u8
    } else {
        6
    }
}

/// The gathered text with one more line.
pub open spec fn joined(current: Seq<char>, line: Seq<char>) -> Seq<char> {
    if current.len() > 0 {
        current.push('\n') + line
    } else {
        line
    }
}

/// The blocks with the gathered text as one more markdown block, if any
/// text was gathered.
pub open spec fn flushed(blocks: Seq<BlockView>, current: Seq<char>) -> Seq<BlockView> {
    if current.len() > 0 {
        blocks.push(BlockView::Markdown(current))
    } else {
        blocks
    }
}

/// The state after one more line, given what the three patterns capture in
/// it. Inside a code fence the line is text, and the fence ends with a fence
/// line whose run begins with the run that opened it. Outside, a header or
/// an image ends the gathered text and becomes a block; a fence line opens
/// a fence and is text; any other line is text.
pub open spec fn advance(
    state: SplitView,
    line: Seq<char>,
    header: Option<Seq<Option<Seq<char>>>>,
    image: Option<Seq<Option<Seq<char>>>>,
    fence: Option<Seq<Option<Seq<char>>>>,
) -> SplitView {
    match state.fence {
        Some(open) => SplitView {
            blocks: state.blocks,
            current: joined(state.current, line),
            fence: if fence matches Some(groups) && open.is_prefix_of(group(groups, 1)) {
                None
            } else {
                Some(open)
            },
        },
        None => match header {
            Some(groups) => SplitView {
                blocks: flushed(state.blocks, state.current).push(
                    BlockView::Header(tier_of(group(groups, 1)), group(groups, 2)),
                ),
                current: Seq::empty(),
                fence: None,
            },
            None => match image {
                Some(groups) => SplitView {
                    blocks: flushed(state.blocks, state.current).push(
                        BlockView::Image(group(groups, 1), group(groups, 2)),
                    ),
                    current: Seq::empty(),
                    fence: None,
                },
                None => SplitView {
                    blocks: state.blocks,
                    current: joined(state.current, line),
                    fence: match fence {
                        Some(groups) => Some(group(groups, 1)),
                        None => None,
                    },
                },
            },
        },
    }
}

/// The state after the first `upto` lines.
pub open spec fn split_upto(lines: Seq<Seq<char>>, upto: int) -> SplitView
    decreases upto,
{
    if upto <= 0 {
        SplitView { blocks: Seq::empty(), current: Seq::empty(), fence: None }
    } else {
        advance(
            split_upto(lines, upto - 1),
            lines[upto - 1],
            regex_captures(HEADER_PATTERN@, false, lines[upto - 1]),
            regex_captures(IMAGE_PATTERN@, false, lines[upto - 1]),
            regex_captures(CODEFENCE_PATTERN@, false, lines[upto - 1]),
        )
    }
}

/// The blocks of a text given as lines.
pub open spec fn split_lines(lines: Seq<Seq<char>>) -> Seq<BlockView> {
    flushed(
        split_upto(lines, lines.len() as int).blocks,
        split_upto(lines, lines.len() as int).current,
    )
}

/// The text of the group `index`, empty where there is none.
pub fn group_text(groups: &Vec<Option<String>>, index: usize) -> (text: String)
    ensures
        text@ == group(groups_view(Some(*groups))->0, index as int),
{
    if index < groups.len() {
        match &groups[index] {
            Some(text) => text.clone(),
            None => String::new(),
        }
    } else {
        String::new()
    }
}

/// A text on its way to being split.
pub struct Splitter {
    pub blocks: Vec<Block>,
    pub current_block: String,
    pub current_codefence: Option<String>,
}

impl View for Splitter {
    type V = SplitView;

    open spec fn view(&self) -> SplitView {
        SplitView {
            blocks: blocks_view(self.blocks@),
            current: self.current_block@,
            fence: match self.current_codefence {
                Some(open) => Some(open@),
                None => None,
            },
        }
    }
}

impl Splitter {
    /// Nothing split yet.
    pub fn new() -> (splitter: Splitter)
        ensures
            splitter@ == split_upto(Seq::empty(), 0),
    {
        let splitter = Splitter {
            blocks: Vec::new(),
            current_block: String::new(),
            current_codefence: None,
        };
        assert(splitter@.blocks =~= Seq::empty());
        splitter
    }

    /// Whether the lines are inside a code fence.
    pub fn in_codefence(&self) -> (inside: bool)
        ensures
            inside == (self@.fence is Some),
    {
        self.current_codefence.is_some()
    }

    /// Adds a line to the gathered text.
    fn gather(&mut self, line: &str)
        ensures
            final(self).current_block@ == joined(old(self).current_block@, line@),
            final(self).blocks == old(self).blocks,
            final(self).current_codefence == old(self).current_codefence,
    {
        if !self.current_block.as_str().is_empty() {
            self.current_block.append("\n");
            proof {
                reveal_strlit("\n");
                assert(self.current_block@ =~= old(self).current_block@.push('\n'));
            }
        }
        self.current_block.append(line);
        assert(self.current_block@ =~= joined(old(self).current_block@, line@));
    }

    /// Ends the gathered text: it becomes a markdown block, if there is any.
    fn flush(&mut self)
        ensures
            blocks_view(final(self).blocks@) == flushed(
                blocks_view(old(self).blocks@),
                old(self).current_block@,
            ),
            final(self).current_block@.len() == 0,
            final(self).current_codefence == old(self).current_codefence,
    {
        if !self.current_block.as_str().is_empty() {
            let mut text = String::new();
            core::mem::swap(&mut self.current_block, &mut text);
            self.blocks.push(Block::Markdown(text));
            assert(blocks_view(self.blocks@) =~= blocks_view(old(self).blocks@).push(
                BlockView::Markdown(text@),
            ));
        }
    }

    /// Takes one more line, given what the three patterns capture in it.
    /// Inside a code fence only `fence` is looked at.
    pub fn take_line(
        &mut self,
        line: &str,
        header: Option<Vec<Option<String>>>,
        image: Option<Vec<Option<String>>>,
        fence: Option<Vec<Option<String>>>,
    )
        ensures
            final(self)@ == advance(
                old(self)@,
                line@,
                groups_view(header),
                groups_view(image),
                groups_view(fence),
            ),
    {
        if self.current_codefence.is_some() {
            self.gather(line);
            let closes = match (&fence, &self.current_codefence) {
                (Some(groups), Some(open)) => starts_with(
                    group_text(groups, 1).as_str(),
                    open.as_str(),
                ),
                _ => false,
            };
            if closes {
                self.current_codefence = None;
            }
        } else if let Some(groups) = header {
            self.flush();
            let run = group_text(&groups, 1);
            let length = run.as_str().len();
            let tier: u8 = if length < 6 {
                length as u8
            } else {
                6
            };
            let text = group_text(&groups, 2);
            self.blocks.push(Block::Header(tier, text));
            assert(blocks_view(self.blocks@) =~= flushed(
                blocks_view(old(self).blocks@),
                old(self).current_block@,
            ).push(BlockView::Header(tier, text@)));
            assert(self.current_block@ =~= Seq::<char>::empty());
        } else if let Some(groups) = image {
            self.flush();
            let alt_text = group_text(&groups, 1);
            let url = group_text(&groups, 2);
            self.blocks.push(Block::Image(alt_text, url));
            assert(blocks_view(self.blocks@) =~= flushed(
                blocks_view(old(self).blocks@),
                old(self).current_block@,
            ).push(BlockView::Image(alt_text@, url@)));
            assert(self.current_block@ =~= Seq::<char>::empty());
        } else {
            self.gather(line);
            if let Some(groups) = fence {
                self.current_codefence = Some(group_text(&groups, 1));
            }
        }
    }

    /// Ends the text: what was gathered last becomes the last block.
    pub fn finish(self) -> (blocks: Vec<Block>)
        ensures
            blocks_view(blocks@) == flushed(self@.blocks, self@.current),
    {
        let mut splitter = self;
        splitter.flush();
        splitter.blocks
    }
}

/// Splits a markdown text into headers, images and the text between them.
pub fn split_headers_and_images(text: &str) -> (blocks: Vec<Block>)
    ensures
        blocks_view(blocks@) == split_lines(text_lines(text@)),
{
    let header_re = Pattern::new(HEADER_PATTERN);
    let image_re = Pattern::new(IMAGE_PATTERN);
    let codefence_re = Pattern::new(CODEFENCE_PATTERN);
    let lines = lines_of(text);
    let ghost all = lines_view(lines@);
    let mut splitter = Splitter::new();
    let n = lines.len();
    let mut i: usize = 0;
    while i < n
        invariant
            n == lines@.len(),
            i <= n,
            all == lines_view(lines@),
            header_re.source() == HEADER_PATTERN@,
            image_re.source() == IMAGE_PATTERN@,
            codefence_re.source() == CODEFENCE_PATTERN@,
            !header_re.ignores_case(),
            !image_re.ignores_case(),
            !codefence_re.ignores_case(),
            splitter@ == split_upto(all, i as int),
        decreases n - i,
    {
        let line = lines[i].as_str();
        assert(all[i as int] == line@);
        let fence = codefence_re.captures(line);
        if splitter.in_codefence() {
            splitter.take_line(line, None, None, fence);
        } else {
            let header = header_re.captures(line);
            let image = image_re.captures(line);
            splitter.take_line(line, header, image, fence);
        }
        i += 1;
    }
    splitter.finish()
}

} // verus!
