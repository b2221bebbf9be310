//! Where the units of the document stand on the screen.

use crate::model::{clamp_u16, Model};
use crate::widget_sources::{lemma_rows_prefix, lemma_rows_step, rows, WidgetSource};
use vstd::prelude::*;

verus! {

/// A unit that is drawn: its place in the live list, and the row of the
/// document area at which it begins.
#[derive(Debug, Clone, Copy, PartialEq, Eq, Structural)]
pub struct Placed {
    pub index: usize,
    pub y: u16,
}

/// The row at which the unit `index` begins, counted from the first row
/// shown: below zero for a unit that begins above the viewport.
pub open spec fn top_of(s: Seq<WidgetSource<'_>>, scroll: u16, index: int) -> int {
    rows(s.subrange(0, index)) - scroll
}

/// Whether the unit `index` is drawn in an area `height` rows high: it
/// begins in the area and ends above the area's last row.
pub open spec fn is_drawn(s: Seq<WidgetSource<'_>>, scroll: u16, height: u16, index: int) -> bool {
    0 <= top_of(s, scroll, index) && top_of(s, scroll, index) + s[index].height < height
}

/// The units among the first `upto` that are drawn, in document order.
pub open spec fn drawn_upto(s: Seq<WidgetSource<'_>>, scroll: u16, height: u16, upto: int) -> Seq<
    Placed,
>
    decreases upto,
{
    if upto <= 0 {
        Seq::empty()
    } else if is_drawn(s, scroll, height, upto - 1) {
        drawn_upto(s, scroll, height, upto - 1).push(
            Placed { index: (upto - 1) as usize, y: top_of(s, scroll, upto - 1) as u16 },
        )
    } else {
        drawn_upto(s, scroll, height, upto - 1)
    }
}

/// No unit that begins at or below the end of the area is drawn.
pub proof fn lemma_none_drawn_below(
    s: Seq<WidgetSource<'_>>,
    scroll: u16,
    height: u16,
    from: int,
    upto: int,
)
    requires
        0 <= from <= upto <= s.len(),
        top_of(s, scroll, from) >= height,
    ensures
        drawn_upto(s, scroll, height, upto) == drawn_upto(s, scroll, height, from),
    decreases upto - from,
{
    if from < upto {
        lemma_none_drawn_below(s, scroll, height, from, upto - 1);
        assert(top_of(s, scroll, upto - 1) >= top_of(s, scroll, from)) by {
            lemma_rows_prefix(s.subrange(0, upto - 1), from);
            assert(s.subrange(0, upto - 1).subrange(0, from) =~= s.subrange(0, from));
        }
    }
}

/// Where an extra that spans the columns from `start` to `end` of a text
/// line is drawn over the line: the screen column at which it begins, after
/// the left edge of the frame and the padding, and its width. Both are held
/// to the range of `u16`, and an extra that ends before it begins has no
/// width.
pub fn overlay_span(frame_x: u16, padding_left: u16, start: usize, end: usize) -> (span: (u16, u16))
    ensures
        span.0 == clamp_u16(frame_x + padding_left + start),
        span.1 == clamp_u16(clamp_u16(end as int) - clamp_u16(start as int)),
{
    let start_column: u16 = if start > 65535 {
        65535
    } else {
        start as u16
    };
    let end_column: u16 = if end > 65535 {
        65535
    } else {
        end as u16
    };
    let x = frame_x.saturating_add(padding_left).saturating_add(start_column);
    (x, end_column.saturating_sub(start_column))
}

impl<'a> Model<'a> {
    /// The units that are drawn in a document area `area_height` rows high,
    /// with the rows at which they begin. A unit is drawn where it begins in
    /// the area and ends above the area's last row.
    pub fn placed_units(&self, area_height: u16) -> (placed: Vec<Placed>)
        ensures
            placed@ == drawn_upto(
                self.sources@,
                self.scroll,
                area_height,
                self.sources@.len() as int,
            ),
    {
        let units = self.sources.sources();
        let n = units.len();
        let mut placed: Vec<Placed> = Vec::new();
        let scroll = self.scroll as u32;
        let limit = scroll + area_height as u32;
        let mut below: u32 = 0;
        let mut i: usize = 0;
        while i < n
            invariant
                n == units@.len(),
                i <= n,
                units@ == self.sources@,
                scroll == self.scroll,
                limit == scroll + area_height,
                below == rows(units@.subrange(0, i as int)),
                below < limit || i == 0,
                placed@ == drawn_upto(units@, self.scroll, area_height, i as int),
            decreases n - i,
        {
            let height = units[i].height as u32;
            proof {
                lemma_rows_step(units@, i as int);
            }
            if below >= scroll && below + height < limit {
                placed.push(Placed { index: i, y: (below - scroll) as u16 });
            }
            below += height;
            i += 1;
            if below >= limit {
                proof {
                    lemma_none_drawn_below(units@, self.scroll, area_height, i as int, n as int);
                }
                return placed;
            }
        }
        placed
    }
}

} // verus!
