//! Render units as plain values, and when two of them show the same.

use crate::styled::line_eq;
use crate::widget_sources::{LineExtra, WidgetSource, WidgetSourceData};
use ratatui::text::Line;
use ratatui_image::protocol::Protocol;
use vstd::prelude::*;
use vstd::std_specs::cmp::PartialEqSpecImpl;

verus! {

/// An extra as plain values.
pub enum LineExtraView {
    Link(Seq<char>, u16, u16),
    SearchMatch(usize, usize, Seq<char>),
}

/// What a unit shows, as plain values beside the styled line and the
/// encoded image, which are carried as they are.
pub enum WidgetSourceDataView<'a> {
    Image(Seq<char>, Protocol),
    BrokenImage(Seq<char>, Seq<char>),
    Line(Line<'a>, Seq<LineExtraView>),
    Header(Seq<char>, u8),
}

/// A unit as plain values.
pub struct WidgetSourceView<'a> {
    pub id: usize,
    pub height: u16,
    pub data: WidgetSourceDataView<'a>,
}

impl View for LineExtra {
    type V = LineExtraView;

    open spec fn view(&self) -> LineExtraView {
        match self {
            LineExtra::Link(url, start, end) => LineExtraView::Link(url@, *start, *end),
            LineExtra::SearchMatch(start, end, text) => LineExtraView::SearchMatch(
                *start,
                *end,
                text@,
            ),
        }
    }
}

/// Extras as plain values.
pub open spec fn extras_view(extras: Seq<LineExtra>) -> Seq<LineExtraView> {
    extras.map_values(|extra: LineExtra| extra@)
}

impl<'a> View for WidgetSourceData<'a> {
    type V = WidgetSourceDataView<'a>;

    open spec fn view(&self) -> WidgetSourceDataView<'a> {
        match self {
            WidgetSourceData::Image(url, protocol) => WidgetSourceDataView::Image(url@, *protocol),
            WidgetSourceData::BrokenImage(url, text) => WidgetSourceDataView::BrokenImage(
                url@,
                text@,
            ),
            WidgetSourceData::Line(line, extras) => WidgetSourceDataView::Line(
                *line,
                extras_view(extras@),
            ),
            WidgetSourceData::Header(text, tier) => WidgetSourceDataView::Header(text@, *tier),
        }
    }
}

impl<'a> View for WidgetSource<'a> {
    type V = WidgetSourceView<'a>;

    open spec fn view(&self) -> WidgetSourceView<'a> {
        WidgetSourceView { id: self.id, height: self.height, data: self.data@ }
    }
}

/// Whether two units show the same: images of the same source, whatever
/// their encoding; broken images, lines and headers that agree in all.
pub open spec fn same_data(a: WidgetSourceDataView<'_>, b: WidgetSourceDataView<'_>) -> bool {
    match (a, b) {
        (WidgetSourceDataView::Image(url, _), WidgetSourceDataView::Image(other_url, _)) => url
            == other_url,
        _ => a == b,
    }
}

impl PartialEq for LineExtra {
    fn eq(&self, other: &Self) -> (same: bool) {
        match (self, other) {
            (LineExtra::Link(url, start, end), LineExtra::Link(other_url, other_start, other_end)) => {
                *url == *other_url && *start == *other_start && *end == *other_end
            },
            (
                LineExtra::SearchMatch(start, end, text),
                LineExtra::SearchMatch(other_start, other_end, other_text),
            ) => *start == *other_start && *end == *other_end && *text == *other_text,
            _ => false,
        }
    }
}

impl PartialEqSpecImpl for LineExtra {
    open spec fn obeys_eq_spec() -> bool {
        true
    }

    open spec fn eq_spec(&self, other: &Self) -> bool {
        self@ == other@
    }
}

/// Whether two lists of extras are the same as plain values.
pub fn extras_eq(a: &Vec<LineExtra>, b: &Vec<LineExtra>) -> (same: bool)
    ensures
        same == (extras_view(a@) == extras_view(b@)),
{
    if a.len() != b.len() {
        assert(extras_view(a@).len() != extras_view(b@).len());
        return false;
    }
    let n = a.len();
    let mut i: usize = 0;
    while i < n
        invariant
            n == a@.len(),
            n == b@.len(),
            i <= n,
            forall|j: int| 0 <= j < i ==> (#[trigger] a@[j])@ == b@[j]@,
        decreases n - i,
    {
        if !(a[i] == b[i]) {
            assert(extras_view(a@)[i as int] != extras_view(b@)[i as int]);
            return false;
        }
        i += 1;
    }
    assert(extras_view(a@) =~= extras_view(b@));
    true
}

impl PartialEq for WidgetSourceData<'_> {
    fn eq(&self, other: &Self) -> (same: bool) {
        match (self, other) {
            (WidgetSourceData::Image(url, _), WidgetSourceData::Image(other_url, _)) => *url
                == *other_url,
            (
                WidgetSourceData::BrokenImage(url, text),
                WidgetSourceData::BrokenImage(other_url, other_text),
            ) => *url == *other_url && *text == *other_text,
            (
                WidgetSourceData::Line(line, extras),
                WidgetSourceData::Line(other_line, other_extras),
            ) => line_eq(line, other_line) && extras_eq(extras, other_extras),
            (
                WidgetSourceData::Header(text, tier),
                WidgetSourceData::Header(other_text, other_tier),
            ) => *text == *other_text && *tier == *other_tier,
            _ => false,
        }
    }
}

impl PartialEqSpecImpl for WidgetSourceData<'_> {
    open spec fn obeys_eq_spec() -> bool {
        true
    }

    open spec fn eq_spec(&self, other: &Self) -> bool {
        same_data(self@, other@)
    }
}

impl PartialEq for WidgetSource<'_> {
    fn eq(&self, other: &Self) -> (same: bool) {
        self.id == other.id && self.height == other.height && self.data == other.data
    }
}

impl PartialEqSpecImpl for WidgetSource<'_> {
    open spec fn obeys_eq_spec() -> bool {
        true
    }

    open spec fn eq_spec(&self, other: &Self) -> bool {
        self.id == other.id && self.height == other.height && same_data(self.data@, other.data@)
    }
}

} // verus!
