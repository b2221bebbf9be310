//! From a markdown text to the events that build the document.

pub mod blocks;
pub mod links;
pub mod shapes;

use crate::big_text::BigText;
use crate::document::DocumentId;
use crate::equality::extras_view;
use crate::markdown::links::{capture_line, link_extras, link_spans, LinkPatterns};
use crate::markdown::blocks::{
    blocks_view, split_headers_and_images, split_lines, Block, BlockView,
};
use crate::markdown::shapes::{check_text, text_fits};
use crate::patterns::text_lines;
use crate::messages::Event;
use crate::seqs::reversed;
use crate::styled::{empty_line, line_text, line_to_string};
use crate::widget_sources::{SourceID, WidgetSource, WidgetSourceData};
use ratatui::text::Line;
use ratskin::RatSkin;
use vstd::prelude::*;

verus! {

/// `ratskin::RatSkin`: the styles with which markdown is rendered.
#[verifier::external_type_specification]
#[verifier::external_body]
pub struct ExRatSkin(RatSkin);

/// Whether the renderer can lay out what is rendered of a block in a
/// document `width` columns wide: the text of markdown at that width; the
/// text of a header at its scaled width, where the terminal scales text.
pub open spec fn block_fits(block: BlockView, width: u16, has_text_size_protocol: bool) -> bool {
    match block {
        BlockView::Header(tier, text) => has_text_size_protocol ==> text_fits(
            text,
            scaled_width(width, tier) as u16,
        ),
        BlockView::Image(_, _) => true,
        BlockView::Markdown(text) => text_fits(text, width),
    }
}

/// Whether the renderer can lay out every block.
pub open spec fn blocks_fit(blocks: Seq<BlockView>, width: u16, has_text_size_protocol: bool) -> bool {
    forall|k: int|
        0 <= k < blocks.len() ==> block_fits(#[trigger] blocks[k], width, has_text_size_protocol)
}

/// Whether a markdown text can be parsed for a document `width` columns
/// wide: the renderer can lay out every block of it.
pub open spec fn can_parse(text: Seq<char>, width: u16, has_text_size_protocol: bool) -> bool {
    blocks_fit(split_lines(text_lines(text)), width, has_text_size_protocol)
}

/// The styles with which markdown is rendered: those that the renderer
/// comes with, which leave no margin beside the text.
pub struct Skin {
    skin: RatSkin,
}

/// `RatSkin::default`: the styles that the renderer comes with.
#[verifier::external_body]
pub(crate) fn default_skin() -> (skin: RatSkin) {
    RatSkin::default()
}

impl Skin {
    /// The styles that the renderer comes with.
    pub fn new() -> (skin: Skin) {
        Skin { skin: default_skin() }
    }
}

impl Default for Skin {
    fn default() -> (skin: Skin) {
        Skin::new()
    }
}

/// The texts of the lines that the renderer makes of a markdown text,
/// wrapped to `width` columns, with the styles that it comes with.
pub uninterp spec fn rendered_texts(text: Seq<char>, width: u16) -> Seq<Seq<char>>;

/// The texts of lines.
pub open spec fn texts_of(lines: Seq<Line<'_>>) -> Seq<Seq<char>> {
    lines.map_values(|line: Line<'_>| line_text(line))
}

/// `RatSkin::parse_text` and `RatSkin::parse`: the styled lines of a
/// markdown text, wrapped to `width` columns. The renderer gives up where
/// it has to wrap a list item into fewer columns than its bullet takes, and
/// on a row of a table that it has to cut columns from, where the row is
/// short of cells and holds one to wrap; `text_fits` leaves these out.
#[verifier::external_body]
pub(crate) fn render_markdown<'a>(skin: &Skin, text: &str, width: u16) -> (lines: Vec<Line<'a>>)
    requires
        text_fits(text@, width),
    ensures
        texts_of(lines@) == rendered_texts(text@, width),
{
    skin.skin.parse(RatSkin::parse_text(text), width)
}

/// The width at which the text of a double-height header of the tier
/// `tier` is wrapped: half the width, scaled up by the inverse of the tier's
/// ratio, and held to the range of `u16`.
pub open spec fn scaled_width(width: u16, tier: u8) -> int {
    let ratio = crate::big_text::size_ratio_of(tier);
    let scaled = (width / 2) * ratio.1 / (ratio.0 as int);
    if scaled > u16::MAX {
        u16::MAX as int
    } else {
        scaled
    }
}

/// Whether the event announces the unit `id` of the generation
/// `document_id` as ready, with the height and the content that `shows`
/// asks for.
pub open spec fn is_parsed<'a>(
    event: Event<'a>,
    document_id: DocumentId,
    id: int,
    height: u16,
    shows: spec_fn(WidgetSourceData<'a>) -> bool,
) -> bool {
    &&& event matches Event::Parsed(generation, source)
    &&& generation == document_id
    &&& source.id == id
    &&& source.height == height
    &&& shows(source.data)
}

/// A text line without text and without extras.
pub open spec fn shows_nothing<'a>() -> spec_fn(WidgetSourceData<'a>) -> bool {
    |data: WidgetSourceData<'a>|
        data matches WidgetSourceData::Line(line, extras) && line_text(line).len() == 0
            && extras@.len() == 0
}

/// The rendered line `line` of the text `source` with its links: an extra
/// for each address in it, and a line of the same text, which is the line
/// as it is where it holds no address.
pub open spec fn shows_line<'a>(line: Line<'a>, source: Seq<char>) -> spec_fn(
    WidgetSourceData<'a>,
) -> bool {
    |data: WidgetSourceData<'a>|
        {
            &&& data matches WidgetSourceData::Line(shown, extras)
            &&& extras_view(extras@) == link_extras(line_text(line), source)
            &&& line_text(shown) == line_text(line)
            &&& link_spans(line_text(line)).len() == 0 ==> shown == line
        }
}

/// A double-height header of the tier `tier` with the text `text`.
pub open spec fn shows_header<'a>(tier: u8, text: Seq<char>) -> spec_fn(
    WidgetSourceData<'a>,
) -> bool {
    |data: WidgetSourceData<'a>|
        data matches WidgetSourceData::Header(same, same_tier) && same@ == text && same_tier
            == tier
}

/// Whether a text block follows `block` only after an empty line.
pub open spec fn space_after(block: BlockView) -> bool {
    !(block is Header)
}

/// Whether an empty line comes before the block at `index`: it does after
/// an image and after markdown.
pub open spec fn spaced_before(blocks: Seq<BlockView>, index: int) -> bool {
    index >= 1 && space_after(blocks[index - 1])
}

/// Whether `events` are what one block gives, with unit ids from
/// `first_id` on and `lines` as the rendered lines of its text. An empty
/// line comes first where `needs_space` asks for one. A header gives one
/// double-height unit for each of its lines where the terminal scales text,
/// else a request to render it. An image gives a request to fetch it.
/// Markdown gives one unit for each of its lines.
pub open spec fn block_emitted<'a>(
    events: Seq<Event<'a>>,
    document_id: DocumentId,
    first_id: int,
    needs_space: bool,
    block: BlockView,
    lines: Seq<Line<'a>>,
    has_text_size_protocol: bool,
) -> bool {
    let lead: int = if needs_space {
        1
    } else {
        0
    };
    &&& events.len() >= lead
    &&& needs_space ==> is_parsed(events[0], document_id, first_id, 1, shows_nothing())
    &&& match block {
        BlockView::Header(tier, text) => if has_text_size_protocol {
            &&& events.len() == lead + lines.len()
            &&& forall|j: int|
                lead <= j < events.len() ==> is_parsed(
                    #[trigger] events[j],
                    document_id,
                    first_id + j,
                    2,
                    shows_header(tier, line_text(lines[j - lead])),
                )
        } else {
            &&& events.len() == lead + 1
            &&& events[lead] matches Event::ParseHeader(generation, id, same_tier, same)
            &&& generation == document_id
            &&& id == first_id + lead
            &&& same_tier == tier
            &&& same@ == text
        },
        BlockView::Image(alt, url) => {
            &&& events.len() == lead + 1
            &&& events[lead] matches Event::ParseImage(generation, id, same_url, same_alt, title)
            &&& generation == document_id
            &&& id == first_id + lead
            &&& same_url@ == url
            &&& same_alt@ == alt
            &&& title@.len() == 0
        },
        BlockView::Markdown(text) => {
            &&& events.len() == lead + lines.len()
            &&& forall|j: int|
                lead <= j < events.len() ==> is_parsed(
                    #[trigger] events[j],
                    document_id,
                    first_id + j,
                    1,
                    shows_line(lines[j - lead], text),
                )
        },
    }
}

/// The texts of the lines that are rendered for a block in a document
/// `width` columns wide: those of the text of markdown at that width; those
/// of a header's text at its scaled width, where the terminal scales text;
/// none else.
pub open spec fn block_texts(block: BlockView, has_text_size_protocol: bool, width: u16) -> Seq<
    Seq<char>,
> {
    match block {
        BlockView::Header(tier, text) => if has_text_size_protocol {
            rendered_texts(text, scaled_width(width, tier) as u16)
        } else {
            Seq::empty()
        },
        BlockView::Image(_, _) => Seq::empty(),
        BlockView::Markdown(text) => rendered_texts(text, width),
    }
}

/// Whether `events` are what the first `upto` blocks give, one after the
/// other, each with the lines that are rendered for it, the unit ids
/// counting up from zero, and an empty line before each block that follows
/// an image or markdown.
pub open spec fn emitted_upto<'a>(
    events: Seq<Event<'a>>,
    document_id: DocumentId,
    blocks: Seq<BlockView>,
    has_text_size_protocol: bool,
    width: u16,
    upto: int,
) -> bool
    decreases upto,
{
    if upto <= 0 {
        events.len() == 0
    } else {
        let needs_space = spaced_before(blocks, upto - 1);
        let block = blocks[upto - 1];
        let end = events.len() as int;
        exists|cut: int, lines: Seq<Line<'a>>|
            {
                &&& 0 <= cut <= events.len()
                &&& emitted_upto(
                    events.subrange(0, cut),
                    document_id,
                    blocks,
                    has_text_size_protocol,
                    width,
                    upto - 1,
                )
                &&& texts_of(lines) == block_texts(block, has_text_size_protocol, width)
                &&& #[trigger] block_emitted(
                    events.subrange(cut, end),
                    document_id,
                    cut,
                    needs_space,
                    block,
                    lines,
                    has_text_size_protocol,
                )
            }
    }
}

/// The unit that an event announces or asks for, if it is about one unit.
pub open spec fn unit_of(event: Event<'_>) -> Option<SourceID> {
    match event {
        Event::Parsed(_, source) => Some(source.id),
        Event::ParseImage(_, id, _, _, _) => Some(id),
        Event::ParseHeader(_, id, _, _) => Some(id),
        _ => None,
    }
}

/// The events of one block are about the units from `first_id` on, one
/// after the other, and belong to the generation `document_id`.
pub proof fn lemma_block_ids<'a>(
    events: Seq<Event<'a>>,
    document_id: DocumentId,
    first_id: int,
    needs_space: bool,
    block: BlockView,
    lines: Seq<Line<'a>>,
    has_text_size_protocol: bool,
    k: int,
)
    requires
        block_emitted(
            events,
            document_id,
            first_id,
            needs_space,
            block,
            lines,
            has_text_size_protocol,
        ),
        0 <= k < events.len(),
    ensures
        unit_of(events[k]) matches Some(id) && id == first_id + k,
        events[k].gate() == Some(document_id),
{
    let lead: int = if needs_space {
        1
    } else {
        0
    };
}

/// Unit ids count up from zero: the event at the place `k` of a parse is
/// about the unit `k`, and belongs to the generation of the parse.
pub proof fn lemma_emitted_ids<'a>(
    events: Seq<Event<'a>>,
    document_id: DocumentId,
    blocks: Seq<BlockView>,
    has_text_size_protocol: bool,
    width: u16,
    upto: int,
    k: int,
)
    requires
        emitted_upto(events, document_id, blocks, has_text_size_protocol, width, upto),
        0 <= k < events.len(),
    ensures
        unit_of(events[k]) matches Some(id) && id == k,
        events[k].gate() == Some(document_id),
    decreases upto,
{
    if upto > 0 {
        let needs_space = spaced_before(blocks, upto - 1);
        let block = blocks[upto - 1];
        let end = events.len() as int;
        let (cut, lines): (int, Seq<Line<'a>>) = choose|cut: int, lines: Seq<Line<'a>>|
            {
                &&& 0 <= cut <= events.len()
                &&& emitted_upto(
                    events.subrange(0, cut),
                    document_id,
                    blocks,
                    has_text_size_protocol,
                    width,
                    upto - 1,
                )
                &&& texts_of(lines) == block_texts(block, has_text_size_protocol, width)
                &&& #[trigger] block_emitted(
                    events.subrange(cut, end),
                    document_id,
                    cut,
                    needs_space,
                    block,
                    lines,
                    has_text_size_protocol,
                )
            };
        if k < cut {
            lemma_emitted_ids(
                events.subrange(0, cut),
                document_id,
                blocks,
                has_text_size_protocol,
                width,
                upto - 1,
                k,
            );
        } else {
            lemma_block_ids(
                events.subrange(cut, end),
                document_id,
                cut,
                needs_space,
                block,
                lines,
                has_text_size_protocol,
                k - cut,
            );
        }
    }
}

/// The event that announces a unit as ready.
pub fn send_parsed<'a>(
    document_id: DocumentId,
    id: SourceID,
    data: WidgetSourceData<'a>,
    height: u16,
) -> (event: Event<'a>)
    ensures
        event == Event::Parsed(document_id, WidgetSource { id, height, data }),
{
    Event::Parsed(document_id, WidgetSource { id, height, data })
}

/// The width at which the text of a double-height header is wrapped.
pub fn header_width(width: u16, tier: u8) -> (scaled: u16)
    ensures
        scaled == scaled_width(width, tier),
{
    let (n, d) = BigText::size_ratio(tier);
    let half: u32 = (width / 2) as u32;
    assert(half * (d as u32) <= 32767 * 7) by (nonlinear_arith)
        requires
            half <= 32767,
            d <= 7,
    ;
    let scaled: u32 = half * (d as u32) / (n as u32);
    if scaled > 65535 {
        65535
    } else {
        scaled as u16
    }
}

/// Whether the renderer can lay out what is rendered of a block.
pub fn check_block(block: &Block, skin: &Skin, width: u16, has_text_size_protocol: bool) -> (fine: bool)
    ensures
        fine == block_fits(block@, width, has_text_size_protocol),
{
    match block {
        Block::Header(tier, text) => {
            !has_text_size_protocol || check_text(skin, text.as_str(), header_width(width, *tier))
        },
        Block::Image(_, _) => true,
        Block::Markdown(text) => check_text(skin, text.as_str(), width),
    }
}

/// Whether the renderer can lay out every block.
pub fn check_blocks(
    blocks: &Vec<Block>,
    skin: &Skin,
    width: u16,
    has_text_size_protocol: bool,
) -> (fine: bool)
    ensures
        fine == blocks_fit(blocks_view(blocks@), width, has_text_size_protocol),
{
    let n = blocks.len();
    let mut i: usize = 0;
    while i < n
        invariant
            n == blocks@.len(),
            i <= n,
            forall|k: int|
                0 <= k < i ==> block_fits(
                    #[trigger] blocks_view(blocks@)[k],
                    width,
                    has_text_size_protocol,
                ),
        decreases n - i,
    {
        assert(blocks_view(blocks@)[i as int] == blocks@[i as int]@);
        if !check_block(&blocks[i], skin, width, has_text_size_protocol) {
            return false;
        }
        i += 1;
    }
    true
}

/// Appends the events of one block, given the rendered lines of its text.
/// The unit ids go on from the number of events so far.
pub fn emit_block<'a>(
    events: &mut Vec<Event<'a>>,
    document_id: DocumentId,
    needs_space: bool,
    block: Block,
    lines: Vec<Line<'a>>,
    has_text_size_protocol: bool,
    links: &LinkPatterns,
)
    requires
        links.wf(),
    ensures
        final(events)@.len() >= old(events)@.len(),
        final(events)@.subrange(0, old(events)@.len() as int) == old(events)@,
        block_emitted(
            final(events)@.subrange(old(events)@.len() as int, final(events)@.len() as int),
            document_id,
            old(events)@.len() as int,
            needs_space,
            block@,
            lines@,
            has_text_size_protocol,
        ),
{
    let ghost before = events@;
    let ghost first = events@.len() as int;
    let ghost lead: int = if needs_space {
        1
    } else {
        0
    };
    if needs_space {
        let id = events.len();
        events.push(
            send_parsed(document_id, id, WidgetSourceData::Line(empty_line(), Vec::new()), 1),
        );
    }
    assert(events@.subrange(0, first) =~= before);
    match block {
        Block::Header(tier, text) => {
            if has_text_size_protocol {
                let n = lines.len();
                let mut k: usize = 0;
                while k < n
                    invariant
                        n == lines@.len(),
                        k <= n,
                        first == before.len(),
                        lead == if needs_space {
                            1int
                        } else {
                            0int
                        },
                        events@.len() == first + lead + k,
                        events@.subrange(0, first) == before,
                        needs_space ==> is_parsed(
                            events@[first],
                            document_id,
                            first,
                            1,
                            shows_nothing(),
                        ),
                        forall|j: int|
                            first + lead <= j < events@.len() ==> is_parsed(
                                #[trigger] events@[j],
                                document_id,
                                j,
                                2,
                                shows_header(tier, line_text(lines@[j - first - lead])),
                            ),
                    decreases n - k,
                {
                    let id = events.len();
                    let text = line_to_string(&lines[k]);
                    events.push(
                        send_parsed(document_id, id, WidgetSourceData::Header(text, tier), 2),
                    );
                    assert(events@.subrange(0, first) =~= before);
                    k += 1;
                }
            } else {
                let id = events.len();
                events.push(Event::ParseHeader(document_id, id, tier, text));
                assert(events@.subrange(0, first) =~= before);
            }
        },
        Block::Image(alt, url) => {
            let id = events.len();
            events.push(Event::ParseImage(document_id, id, url, alt, String::new()));
            assert(events@.subrange(0, first) =~= before);
        },
        Block::Markdown(text) => {
            let ghost all = lines@;
            let mut back = reversed(lines);
            let n = back.len();
            let mut k: usize = 0;
            while k < n
                invariant
                    n == all.len(),
                    k <= n,
                    first == before.len(),
                    lead == if needs_space {
                        1int
                    } else {
                        0int
                    },
                    links.wf(),
                    back@ == all.reverse().subrange(0, n - k),
                    events@.len() == first + lead + k,
                    events@.subrange(0, first) == before,
                    needs_space ==> is_parsed(events@[first], document_id, first, 1, shows_nothing()),
                    forall|j: int|
                        first + lead <= j < events@.len() ==> is_parsed(
                            #[trigger] events@[j],
                            document_id,
                            j,
                            1,
                            shows_line(all[j - first - lead], text@),
                        ),
                decreases n - k,
            {
                let id = events.len();
                let line = back.pop().unwrap();
                assert(line == all[k as int]);
                let (shown, extras) = capture_line(line, text.as_str(), links);
                events.push(send_parsed(document_id, id, WidgetSourceData::Line(shown, extras), 1));
                assert(events@.subrange(0, first) =~= before);
                assert(back@ =~= all.reverse().subrange(0, n - k - 1));
                k += 1;
            }
        },
    }
    proof {
        let added = events@.subrange(first, events@.len() as int);
        assert forall|j: int| 0 <= j < added.len() implies added[j] == events@[first + j] by {}
    }
}

/// The events that build the document of `blocks`: for each block, in
/// order, the events of `emit_block`, with the lines that `skin` renders at
/// `width` columns, or, for a double-height header, at its scaled width.
pub fn emit_blocks<'a>(
    blocks: Vec<Block>,
    skin: &Skin,
    document_id: DocumentId,
    width: u16,
    has_text_size_protocol: bool,
) -> (events: Vec<Event<'a>>)
    requires
        blocks_fit(blocks_view(blocks@), width, has_text_size_protocol),
    ensures
        emitted_upto(
            events@,
            document_id,
            blocks_view(blocks@),
            has_text_size_protocol,
            width,
            blocks@.len() as int,
        ),
{
    let ghost views = blocks_view(blocks@);
    let mut back = reversed(blocks);
    let n = back.len();
    let mut events: Vec<Event<'a>> = Vec::new();
    let links = LinkPatterns::new();
    let mut needs_space = false;
    let mut i: usize = 0;
    while i < n
        invariant
            n == views.len(),
            i <= n,
            blocks_fit(views, width, has_text_size_protocol),
            links.wf(),
            back@.len() == n - i,
            blocks_view(back@) == views.reverse().subrange(0, n - i),
            needs_space == spaced_before(views, i as int),
            emitted_upto(events@, document_id, views, has_text_size_protocol, width, i as int),
        decreases n - i,
    {
        let ghost rest = back@;
        let block = back.pop().unwrap();
        proof {
            assert(blocks_view(back@) =~= views.reverse().subrange(0, n - i - 1));
            assert(blocks_view(rest)[n - i - 1] == rest[n - i - 1]@);
            assert(block@ == views.reverse()[n - i - 1]);
            assert(block@ == views[i as int]);
            assert(block_fits(views[i as int], width, has_text_size_protocol));
        }
        let lines = match &block {
            Block::Header(tier, text) => {
                if has_text_size_protocol {
                    render_markdown(skin, text.as_str(), header_width(width, *tier))
                } else {
                    Vec::new()
                }
            },
            Block::Image(_, _) => Vec::new(),
            Block::Markdown(text) => render_markdown(skin, text.as_str(), width),
        };
        assert(texts_of(lines@) =~= block_texts(block@, has_text_size_protocol, width));
        let spaced = match &block {
            Block::Header(_, _) => false,
            _ => true,
        };
        let ghost before = events@;
        let ghost rendered = lines@;
        emit_block(
            &mut events,
            document_id,
            needs_space,
            block,
            lines,
            has_text_size_protocol,
            &links,
        );
        proof {
            let cut = before.len() as int;
            assert(events@.subrange(0, cut) == before);
            assert(block_emitted(
                events@.subrange(cut, events@.len() as int),
                document_id,
                cut,
                spaced_before(views, i as int),
                views[i as int],
                rendered,
                has_text_size_protocol,
            ));
        }
        needs_space = spaced;
        i += 1;
    }
    events
}


/// The events that build the document of a markdown text: those of
/// `emit_blocks` for the blocks of the text.
pub fn parse<'a>(
    text: &str,
    skin: &Skin,
    document_id: DocumentId,
    width: u16,
    has_text_size_protocol: bool,
) -> (events: Vec<Event<'a>>)
    requires
        can_parse(text@, width, has_text_size_protocol),
    ensures
        emitted_upto(
            events@,
            document_id,
            split_lines(text_lines(text@)),
            has_text_size_protocol,
            width,
            split_lines(text_lines(text@)).len() as int,
        ),
{
    let blocks = split_headers_and_images(text);
    emit_blocks(blocks, skin, document_id, width, has_text_size_protocol)
}

/// `parse` where the renderer can lay out every block of the text; `None`
/// where it cannot.
pub fn checked_parse<'a>(
    text: &str,
    skin: &Skin,
    document_id: DocumentId,
    width: u16,
    has_text_size_protocol: bool,
) -> (events: Option<Vec<Event<'a>>>)
    ensures
        events is Some == can_parse(text@, width, has_text_size_protocol),
        events matches Some(parsed) ==> emitted_upto(
            parsed@,
            document_id,
            split_lines(text_lines(text@)),
            has_text_size_protocol,
            width,
            split_lines(text_lines(text@)).len() as int,
        ),
{
    let blocks = split_headers_and_images(text);
    if check_blocks(&blocks, skin, width, has_text_size_protocol) {
        Some(emit_blocks(blocks, skin, document_id, width, has_text_size_protocol))
    } else {
        None
    }
}

/// The width that is tried after `width`: twice as wide, one column after
/// none, and no wider than the widest.
pub open spec fn wider(width: u16) -> u16 {
    if width == 0 {
        1
    } else if width * 2 > u16::MAX {
        u16::MAX
    } else {
        (width * 2) as u16
    }
}

/// The width at which a markdown text is laid out for a document `width`
/// columns wide: `width` where the text can be parsed at it, else the
/// first of the wider widths at which it can; none where it cannot be
/// parsed at the widest either.
pub open spec fn fitting(text: Seq<char>, width: u16, has_text_size_protocol: bool) -> Option<u16>
    decreases u16::MAX - width,
{
    if can_parse(text, width, has_text_size_protocol) {
        Some(width)
    } else if width == u16::MAX {
        None
    } else {
        fitting(text, wider(width), has_text_size_protocol)
    }
}

/// A text is laid out at a width at which it can be parsed, no narrower
/// than the document.
pub proof fn lemma_fitting_fits(text: Seq<char>, width: u16, has_text_size_protocol: bool)
    ensures
        fitting(text, width, has_text_size_protocol) matches Some(found) ==> found >= width
            && can_parse(text, found, has_text_size_protocol),
    decreases u16::MAX - width,
{
    if !can_parse(text, width, has_text_size_protocol) && width != u16::MAX {
        lemma_fitting_fits(text, wider(width), has_text_size_protocol);
    }
}

/// The width at which a markdown text is laid out for a document `width`
/// columns wide.
pub fn fitting_width(text: &str, skin: &Skin, width: u16, has_text_size_protocol: bool) -> (found:
    Option<u16>)
    ensures
        found == fitting(text@, width, has_text_size_protocol),
{
    let blocks = split_headers_and_images(text);
    let mut tried: u16 = width;
    loop
        invariant
            blocks_view(blocks@) == split_lines(text_lines(text@)),
            fitting(text@, width, has_text_size_protocol) == fitting(
                text@,
                tried,
                has_text_size_protocol,
            ),
        decreases u16::MAX - tried,
    {
        if check_blocks(&blocks, skin, tried, has_text_size_protocol) {
            return Some(tried);
        }
        if tried == u16::MAX {
            return None;
        }
        tried = if tried == 0 {
            1
        } else if tried > u16::MAX / 2 {
            u16::MAX
        } else {
            tried * 2
        };
    }
}

/// The events of one parse pass, as the worker reports it: the new
/// generation first, then the events of `parse`, then the end of the pass
/// with the id of the last unit, or with none where the text gave none.
pub fn parse_pass<'a>(
    text: &str,
    skin: &Skin,
    document_id: DocumentId,
    width: u16,
    has_text_size_protocol: bool,
) -> (events: Vec<Event<'a>>)
    requires
        can_parse(text@, width, has_text_size_protocol),
    ensures
        events@.len() >= 2,
        events@[0] == Event::<'a>::NewDocument(document_id),
        events@.last() == Event::<'a>::ParseDone(
            document_id,
            if events@.len() == 2 {
                None
            } else {
                Some((events@.len() - 3) as usize)
            },
        ),
        emitted_upto(
            events@.subrange(1, events@.len() - 1),
            document_id,
            split_lines(text_lines(text@)),
            has_text_size_protocol,
            width,
            split_lines(text_lines(text@)).len() as int,
        ),
{
    frame_pass(parse(text, skin, document_id, width, has_text_size_protocol), document_id)
}

/// The events of a parse pass around the events of its units: the new
/// generation first, and last the end of the pass with the id of the last
/// unit, or with none where there is no unit.
pub fn frame_pass<'a>(parsed: Vec<Event<'a>>, document_id: DocumentId) -> (events: Vec<Event<'a>>)
    ensures
        events@.len() == parsed@.len() + 2,
        events@[0] == Event::<'a>::NewDocument(document_id),
        events@.last() == Event::<'a>::ParseDone(
            document_id,
            if parsed@.len() == 0 {
                None
            } else {
                Some((parsed@.len() - 1) as usize)
            },
        ),
        events@.subrange(1, events@.len() - 1) == parsed@,
{
    let mut parsed = parsed;
    let ghost units = parsed@;
    let count = parsed.len();
    let last = if count == 0 {
        None
    } else {
        Some(count - 1)
    };
    let mut events: Vec<Event<'a>> = Vec::new();
    events.push(Event::NewDocument(document_id));
    events.append(&mut parsed);
    events.push(Event::ParseDone(document_id, last));
    assert(events@.subrange(1, events@.len() - 1) =~= units);
    events
}

/// `parse_pass` where the renderer can lay out every block of the text;
/// `None` where it cannot.
pub fn checked_parse_pass<'a>(
    text: &str,
    skin: &Skin,
    document_id: DocumentId,
    width: u16,
    has_text_size_protocol: bool,
) -> (events: Option<Vec<Event<'a>>>)
    ensures
        events is Some == can_parse(text@, width, has_text_size_protocol),
        events matches Some(pass) ==> {
            &&& pass@.len() >= 2
            &&& pass@[0] == Event::<'a>::NewDocument(document_id)
            &&& pass@.last() == Event::<'a>::ParseDone(
                document_id,
                if pass@.len() == 2 {
                    None
                } else {
                    Some((pass@.len() - 3) as usize)
                },
            )
            &&& emitted_upto(
                pass@.subrange(1, pass@.len() - 1),
                document_id,
                split_lines(text_lines(text@)),
                has_text_size_protocol,
                width,
                split_lines(text_lines(text@)).len() as int,
            )
        },
{
    match checked_parse(text, skin, document_id, width, has_text_size_protocol) {
        Some(parsed) => Some(frame_pass(parsed, document_id)),
        None => None,
    }
}

} // verus!
