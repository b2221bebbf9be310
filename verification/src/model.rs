//! The coordinator's state: the store, the viewport and the navigator, and
//! how worker events and scroll commands change them.

use crate::cursor::Cursor;
use crate::document::DocumentId;
use crate::find::{first_cursor, next_cursor, ordered_matches, FindMode, FindTarget};
use crate::messages::Cmd;
use crate::setup::BgColor;
use crate::widget_sources::{
    lemma_rows_prefix, lemma_rows_step, rows, rows_before, run_start, WidgetSource, WidgetSources,
};
use vstd::prelude::*;

verus! {

/// The size of the terminal in cells.
#[derive(Debug, Clone, Copy, PartialEq, Eq, Structural)]
pub struct ScreenSize {
    pub width: u16,
    pub height: u16,
}

/// How the document is laid out on the screen: over its full width, or
/// centred in a column of a given width.
#[derive(Debug, Clone, Copy, PartialEq, Eq, Structural)]
pub enum PaddingConfig {
    Off,
    Centered(u16),
}

/// The empty cells to the left and to the right of the document.
#[derive(Debug, Clone, Copy, PartialEq, Eq, Structural)]
pub struct HorizontalPadding {
    pub left: u16,
    pub right: u16,
}

impl PaddingConfig {
    /// The width that is left for the document: all of the screen, or the
    /// width of the centred column where the screen is wider.
    pub open spec fn spec_calculate_width(&self, screen_width: u16) -> u16 {
        match self {
            PaddingConfig::Off => screen_width,
            PaddingConfig::Centered(width) => if *width < screen_width {
                *width
            } else {
                screen_width
            },
        }
    }

    /// The width that is left for the document on a screen of the given
    /// width.
    #[verifier::when_used_as_spec(spec_calculate_width)]
    pub fn calculate_width(&self, screen_width: u16) -> (width: u16)
        ensures
            width == self.spec_calculate_width(screen_width),
    {
        match self {
            PaddingConfig::Off => screen_width,
            PaddingConfig::Centered(width) => if *width < screen_width {
                *width
            } else {
                screen_width
            },
        }
    }

    /// The height that is left for the document: all of the screen.
    pub open spec fn spec_calculate_height(&self, screen_height: u16) -> u16 {
        screen_height
    }

    /// The height that is left for the document on a screen of the given
    /// height: all of it.
    #[verifier::when_used_as_spec(spec_calculate_height)]
    pub fn calculate_height(&self, screen_height: u16) -> (height: u16)
        ensures
            height == self.spec_calculate_height(screen_height),
    {
        screen_height
    }
}

/// `x` held to the range of `i16`.
pub open spec fn clamp_i16(x: int) -> int {
    if x < i16::MIN {
        i16::MIN as int
    } else if x > i16::MAX {
        i16::MAX as int
    } else {
        x
    }
}

/// `x` held to the range of `u16`.
pub open spec fn clamp_u16(x: int) -> int {
    if x < 0 {
        0
    } else if x > u16::MAX {
        u16::MAX as int
    } else {
        x
    }
}

/// The product of two `i16`, held to the range of `i16`.
pub fn saturating_mul(a: i16, b: i16) -> (product: i16)
    ensures
        product == clamp_i16(a * b),
{
    proof {
        assert(-32768 * 32768 <= (a as int) * (b as int) <= 32768 * 32768) by (nonlinear_arith)
            requires
                -32768 <= a <= 32767,
                -32768 <= b <= 32767,
        ;
    }
    let wide: i32 = (a as i32) * (b as i32);
    if wide < -32768 {
        -32768
    } else if wide > 32767 {
        32767
    } else {
        wide as i16
    }
}

/// A `u16` moved by an `i16`, held to the range of `u16`.
pub fn saturating_add_signed(a: u16, b: i16) -> (sum: u16)
    ensures
        sum == clamp_u16(a + b),
{
    let wide: i32 = (a as i32) + (b as i32);
    if wide < 0 {
        0
    } else if wide > 65535 {
        65535
    } else {
        wide as u16
    }
}

/// The coordinator's state: the background colour, the store, the row at
/// which the viewport begins, the count that scales the next scroll, the
/// cursor, the size of the screen, the layout, and the generation of the
/// open document.
pub struct Model<'a> {
    pub bg: Option<BgColor>,
    pub sources: WidgetSources<'a>,
    pub scroll: u16,
    pub scroll_by_mul: i16,
    pub cursor: Cursor,
    pub screen_size: ScreenSize,
    pub padding: PaddingConfig,
    pub document_id: DocumentId,
}

impl<'a> Model<'a> {
    /// The state before any document is open: an empty store, the top of
    /// the document, no cursor, the generation zero.
    pub fn new(bg: Option<BgColor>, screen_size: ScreenSize, padding: PaddingConfig) -> (model:
        Model<'a>)
        ensures
            model.bg == bg,
            model.sources@.len() == 0,
            model.sources.evicted().len() == 0,
            model.scroll == 0,
            model.scroll_by_mul == 0,
            model.cursor is Idle,
            model.screen_size == screen_size,
            model.padding == padding,
            model.document_id == (DocumentId { id: 0, reload_id: 0 }),
    {
        Model {
            bg,
            sources: WidgetSources::new(),
            scroll: 0,
            scroll_by_mul: 0,
            cursor: Cursor::Idle,
            screen_size,
            padding,
            document_id: DocumentId { id: 0, reload_id: 0 },
        }
    }

    /// The command that opens a new document with the text `text`.
    pub fn open(&self, screen_size: ScreenSize, text: String) -> (cmd: Cmd)
        requires
            self.document_id.id < usize::MAX,
        ensures
            cmd == Cmd::Parse(
                DocumentId { id: (self.document_id.id + 1) as usize, reload_id: 0 },
                self.padding.calculate_width(screen_size.width),
                text,
            ),
    {
        self.parse(self.document_id.open(), screen_size, text)
    }

    /// The command that parses the open document anew with the text `text`.
    pub fn reparse(&self, screen_size: ScreenSize, text: String) -> (cmd: Cmd)
        requires
            self.document_id.reload_id < usize::MAX,
        ensures
            cmd == Cmd::Parse(
                DocumentId {
                    id: self.document_id.id,
                    reload_id: (self.document_id.reload_id + 1) as usize,
                },
                self.padding.calculate_width(screen_size.width),
                text,
            ),
    {
        self.parse(self.document_id.reload(), screen_size, text)
    }

    fn parse(&self, next_document_id: DocumentId, screen_size: ScreenSize, text: String) -> (cmd:
        Cmd)
        ensures
            cmd == Cmd::Parse(
                next_document_id,
                self.padding.calculate_width(screen_size.width),
                text,
            ),
    {
        let inner_width = self.inner_width(screen_size.width);
        Cmd::Parse(next_document_id, inner_width, text)
    }

    /// The width of the document on a screen of the given width.
    pub fn inner_width(&self, screen_width: u16) -> (width: u16)
        ensures
            width == self.padding.calculate_width(screen_width),
    {
        self.padding.calculate_width(screen_width)
    }

    /// The height of the document on a screen of the given height.
    pub fn inner_height(&self, screen_height: u16) -> (height: u16)
        ensures
            height == self.padding.calculate_height(screen_height),
    {
        self.padding.calculate_height(screen_height)
    }

    /// The empty cells beside the document in an area of the given width:
    /// none, or half of what a centred column leaves free, on each side.
    pub fn block_padding(&self, area_width: u16) -> (padding: HorizontalPadding)
        ensures
            padding.left == padding.right,
            padding.left == match self.padding {
                PaddingConfig::Off => 0,
                PaddingConfig::Centered(width) => if area_width >= width {
                    (area_width - width) / 2
                } else {
                    0
                },
            },
    {
        match self.padding {
            PaddingConfig::Off => HorizontalPadding { left: 0, right: 0 },
            PaddingConfig::Centered(width) => {
                let side = if area_width >= width {
                    (area_width - width) / 2
                } else {
                    0
                };
                HorizontalPadding { left: side, right: side }
            },
        }
    }

    /// The units of the document, in their order.
    pub fn sources(&self) -> (units: &Vec<WidgetSource<'a>>)
        ensures
            units@ == self.sources@,
    {
        self.sources.sources()
    }

    /// The rows of the whole document.
    pub fn total_lines(&self) -> (total: u16)
        requires
            rows(self.sources@) <= u16::MAX,
        ensures
            total == rows(self.sources@),
    {
        let units = self.sources.sources();
        let n = units.len();
        let mut total: u16 = 0;
        let mut i: usize = 0;
        while i < n
            invariant
                n == units@.len(),
                i <= n,
                rows(units@) <= u16::MAX,
                total == rows(units@.subrange(0, i as int)),
            decreases n - i,
        {
            proof {
                lemma_rows_step(units@, i as int);
                lemma_rows_prefix(units@, i + 1);
            }
            total += units[i].height;
            i += 1;
        }
        assert(units@.subrange(0, n as int) =~= units@);
        total
    }

    /// The rows that the screen shows of the document.
    pub open spec fn visible_rows(&self) -> u16 {
        self.padding.calculate_height(self.screen_size.height)
    }

    /// The farthest that the viewport scrolls down: the bottom row stays
    /// free for the status line.
    pub open spec fn scroll_limit(&self) -> int {
        if rows(self.sources@) >= self.visible_rows() {
            rows(self.sources@) - self.visible_rows() + 1
        } else {
            1
        }
    }

    /// Where the viewport stands after `scroll_by(lines)`.
    pub open spec fn scrolled(&self, lines: i16) -> int {
        let factor = if self.scroll_by_mul > 1 {
            self.scroll_by_mul
        } else {
            1
        };
        let moved = clamp_u16(self.scroll + clamp_i16(lines * factor));
        if moved < self.scroll_limit() {
            moved
        } else {
            self.scroll_limit()
        }
    }

    /// Whether the rows of the document can be counted in a `u16` together
    /// with the free bottom row.
    pub open spec fn can_scroll(&self) -> bool {
        rows(self.sources@) <= u16::MAX && self.scroll_limit() <= u16::MAX
    }

    /// Scrolls by `lines` rows, times the pending count where there is one,
    /// which is used up. The viewport never leaves the range from the top to
    /// `scroll_limit`.
    pub fn scroll_by(&mut self, lines: i16)
        requires
            old(self).can_scroll(),
        ensures
            final(self).scroll == old(self).scrolled(lines),
            final(self).scroll <= old(self).scroll_limit(),
            final(self).scroll_by_mul == 0,
            final(self).sources == old(self).sources,
            final(self).cursor == old(self).cursor,
            final(self).screen_size == old(self).screen_size,
            final(self).padding == old(self).padding,
            final(self).document_id == old(self).document_id,
            final(self).bg == old(self).bg,
    {
        let factor = if self.scroll_by_mul > 1 {
            self.scroll_by_mul
        } else {
            1
        };
        let lines = saturating_mul(lines, factor);
        self.scroll_by_mul = 0;
        let moved = saturating_add_signed(self.scroll, lines);
        let total = self.total_lines();
        let visible = self.inner_height(self.screen_size.height);
        let limit = total.saturating_sub(visible) + 1;
        self.scroll = if moved < limit {
            moved
        } else {
            limit
        };
    }

    /// Whether the rows of the document and of the viewport can be counted
    /// in an `i16`, as the navigator counts them.
    pub open spec fn can_jump(&self) -> bool {
        &&& rows(self.sources@) + 2 <= i16::MAX
        &&& self.scroll + self.visible_rows() <= i16::MAX
    }

    /// The rows of the document, where they are `limit` at most.
    pub fn counted_rows(&self, limit: u16) -> (total: Option<u16>)
        ensures
            match total {
                Some(count) => count == rows(self.sources@) && count <= limit,
                None => rows(self.sources@) > limit,
            },
    {
        let units = self.sources.sources();
        let n = units.len();
        let mut total: u32 = 0;
        let mut i: usize = 0;
        while i < n
            invariant
                n == units@.len(),
                i <= n,
                units@ == self.sources@,
                total == rows(units@.subrange(0, i as int)),
                total <= limit,
            decreases n - i,
        {
            proof {
                lemma_rows_step(units@, i as int);
                lemma_rows_prefix(units@, i + 1);
            }
            total += units[i].height as u32;
            if total > limit as u32 {
                return None;
            }
            i += 1;
        }
        assert(units@.subrange(0, n as int) =~= units@);
        Some(total as u16)
    }

    /// Whether the rows of the document can be counted in a `u16` together
    /// with the free bottom row, computed.
    pub fn check_can_scroll(&self) -> (fits: bool)
        ensures
            fits == self.can_scroll(),
    {
        let visible = self.inner_height(self.screen_size.height);
        match self.counted_rows(65535) {
            Some(total) => total < 65535 || visible > 0,
            None => false,
        }
    }

    /// Whether the rows of the document and of the viewport can be counted
    /// in an `i16`, computed.
    pub fn check_can_jump(&self) -> (fits: bool)
        ensures
            fits == self.can_jump(),
    {
        let visible = self.inner_height(self.screen_size.height);
        match self.counted_rows(32765) {
            Some(_) => self.scroll as u32 + visible as u32 <= 32767,
            None => false,
        }
    }

    /// The first and the last row that the screen shows; the bottom row of
    /// the screen shows none.
    pub fn visible_lines(&self) -> (range: (i16, i16))
        requires
            self.scroll + self.visible_rows() <= i16::MAX,
        ensures
            range.0 == self.scroll,
            range.1 == self.scroll + self.visible_rows() - 2,
    {
        let start_y = self.scroll as i16;
        let end_y = start_y + self.inner_height(self.screen_size.height) as i16 - 2;
        (start_y, end_y)
    }

    /// Where the viewport stands once the unit with the id `id` is in view:
    /// moved down by what the unit's first row lies below the last visible
    /// row, or up by what it lies above the first, or where it was.
    pub open spec fn brought_into_view(&self, id: usize) -> int {
        let y = rows_before(self.sources@, id) as int;
        let from = self.scroll as int;
        let to = self.scroll + self.visible_rows() - 2;
        if y > to {
            self.scrolled((y - to) as i16)
        } else if y < from {
            self.scrolled((y - from) as i16)
        } else {
            self.scroll as int
        }
    }

    /// Scrolls just as far as it takes to show the unit that the cursor
    /// points at. Where the viewport moves, the pending count is used up.
    pub fn jump_to_pointer(&mut self)
        requires
            old(self).can_jump(),
        ensures
            final(self).scroll == match old(self).cursor.spec_pointer() {
                Some(pointer) => old(self).brought_into_view(pointer.id),
                None => old(self).scroll as int,
            },
            final(self).scroll_by_mul == 0 || (final(self).scroll_by_mul == old(self).scroll_by_mul
                && final(self).scroll == old(self).scroll),
            final(self).sources == old(self).sources,
            final(self).cursor == old(self).cursor,
            final(self).screen_size == old(self).screen_size,
            final(self).padding == old(self).padding,
            final(self).document_id == old(self).document_id,
            final(self).bg == old(self).bg,
    {
        if let Some(pointer) = self.cursor.pointer() {
            let id = pointer.id;
            proof {
                crate::seqs::lemma_first_where(self.sources@, crate::widget_sources::has_id(id));
                lemma_rows_prefix(self.sources@, run_start(self.sources@, id));
            }
            let pointer_y = self.sources.get_y(id);
            let (from, to) = self.visible_lines();
            if pointer_y > to {
                self.scroll_by(pointer_y - to);
            } else if pointer_y < from {
                self.scroll_by(pointer_y - from);
            }
        }
    }

    /// The cursor after a step in the direction `mode`. Without a cursor,
    /// the first link from the viewport on is taken; among links, the next
    /// link, if there is one; in a search, the first match from the viewport
    /// on, then the next match.
    pub open spec fn stepped_cursor(&self, mode: FindMode) -> Cursor {
        match self.cursor {
            Cursor::Idle => match first_cursor(self.sources@, FindTarget::Link, self.scroll) {
                Some(pointer) => Cursor::Links(pointer),
                None => Cursor::Idle,
            },
            Cursor::Links(current) => match next_cursor(
                ordered_matches(self.sources@, mode, FindTarget::Link),
                current,
                1,
            ) {
                Some(pointer) => Cursor::Links(pointer),
                None => Cursor::Links(current),
            },
            Cursor::Search(state, None) => Cursor::Search(
                state,
                first_cursor(self.sources@, FindTarget::Search, self.scroll),
            ),
            Cursor::Search(state, Some(current)) => Cursor::Search(
                state,
                next_cursor(ordered_matches(self.sources@, mode, FindTarget::Search), current, 1),
            ),
        }
    }

    /// Moves the cursor one step in the direction `mode` and brings what it
    /// points at into view.
    fn cursor_step(&mut self, mode: FindMode)
        requires
            old(self).can_jump(),
        ensures
            final(self).cursor == old(self).stepped_cursor(mode),
            final(self).scroll == match old(self).stepped_cursor(mode).spec_pointer() {
                Some(pointer) => old(self).brought_into_view(pointer.id),
                None => old(self).scroll as int,
            },
            final(self).sources == old(self).sources,
            final(self).screen_size == old(self).screen_size,
            final(self).padding == old(self).padding,
            final(self).document_id == old(self).document_id,
            final(self).bg == old(self).bg,
    {
        let next = match &self.cursor {
            Cursor::Idle => self.sources.find_first_cursor(FindTarget::Link, self.scroll),
            Cursor::Links(current) => self.sources.find_next_cursor(
                current,
                mode,
                FindTarget::Link,
                1,
            ),
            Cursor::Search(_, None) => self.sources.find_first_cursor(
                FindTarget::Search,
                self.scroll,
            ),
            Cursor::Search(_, Some(current)) => self.sources.find_next_cursor(
                current,
                mode,
                FindTarget::Search,
                1,
            ),
        };
        match &mut self.cursor {
            Cursor::Search(_, pointer) => {
                *pointer = next;
            },
            other => {
                if let Some(pointer) = next {
                    *other = Cursor::Links(pointer);
                }
            },
        }
        self.jump_to_pointer();
    }

    /// Moves the cursor to the next link or search match and brings it into
    /// view.
    pub fn cursor_next(&mut self)
        requires
            old(self).can_jump(),
        ensures
            final(self).cursor == old(self).stepped_cursor(FindMode::Next),
            final(self).scroll == match old(self).stepped_cursor(FindMode::Next).spec_pointer() {
                Some(pointer) => old(self).brought_into_view(pointer.id),
                None => old(self).scroll as int,
            },
            final(self).sources == old(self).sources,
            final(self).screen_size == old(self).screen_size,
            final(self).padding == old(self).padding,
            final(self).document_id == old(self).document_id,
            final(self).bg == old(self).bg,
    {
        self.cursor_step(FindMode::Next);
    }

    /// Moves the cursor to the previous link or search match and brings it
    /// into view.
    pub fn cursor_prev(&mut self)
        requires
            old(self).can_jump(),
        ensures
            final(self).cursor == old(self).stepped_cursor(FindMode::Prev),
            final(self).scroll == match old(self).stepped_cursor(FindMode::Prev).spec_pointer() {
                Some(pointer) => old(self).brought_into_view(pointer.id),
                None => old(self).scroll as int,
            },
            final(self).sources == old(self).sources,
            final(self).screen_size == old(self).screen_size,
            final(self).padding == old(self).padding,
            final(self).document_id == old(self).document_id,
            final(self).bg == old(self).bg,
    {
        self.cursor_step(FindMode::Prev);
    }
}

} // verus!
