//! How the coordinator applies the events of the worker to its state, and
//! what it asks for in return.

use crate::messages::{Cmd, Event};
use crate::model::Model;
use crate::patterns::{escaped_text, Pattern};
use crate::search::searched_unit;
use crate::seqs::{first_where, lemma_first_where, reversed};
use crate::styled::{lemma_without_line_endings, line_text, marked_line, without_line_endings};
use crate::widget_sources::{
    contains_id, holds_image, ids_below, ids_ordered, images_of, is_cached_of, is_image_from,
    is_only, lemma_run_bounds, lemma_update_places_one, replaced, replaced_run, run_end,
    run_start, same_id, share_id, trimmed, updated, EvictedImage, SourceID, WidgetSource,
    WidgetSourceData,
};
use vstd::prelude::*;
use vstd::string::StringExecFns;

verus! {

/// What the coordinator asks of its surroundings after an event.
#[derive(Debug)]
pub enum Request {
    /// Send a command to the worker.
    Send(Cmd),
    /// Read the file again and parse it anew.
    Reload,
}

/// The outcome of one event.
#[derive(Debug)]
pub struct Processed {
    /// Whether the event ended a parse pass of the open document.
    pub parse_done: bool,
    /// What is to be done next, if anything.
    pub request: Option<Request>,
}

/// What a run of events leaves behind.
pub struct Drained<'a> {
    /// Whether there was any event.
    pub had_events: bool,
    /// Whether one of the events that were applied ended a parse pass of
    /// the open document.
    pub had_done: bool,
    /// What the last event that was applied asks for, if anything.
    pub request: Option<Request>,
    /// The events that were not applied, in their order.
    pub left: Vec<Event<'a>>,
}

/// How long the coordinator waits for input, in milliseconds.
pub const INPUT_WAIT: u64 = 100;

/// How long the coordinator waits for input after it has drained the
/// events, in milliseconds: not at all where there were events, so that a
/// burst of them does not hold back the screen.
pub fn input_wait(had_events: bool) -> (wait: u64)
    ensures
        wait == if had_events {
            0
        } else {
            INPUT_WAIT
        },
{
    if had_events {
        0
    } else {
        INPUT_WAIT
    }
}

/// Whether the coordinator draws the screen anew at the end of a cycle: it
/// does where there was an event or an input.
pub fn needs_redraw(had_events: bool, had_input: bool) -> (redraw: bool)
    ensures
        redraw == (had_events || had_input),
{
    had_events || had_input
}

/// The colour of the marker of a header that is on its way.
pub const HEADER_MARK_COLOR: &'static str = "lightblue";

/// The text before a header's own text: one `#` for each tier, then a
/// space.
pub open spec fn header_marker(tier: u8) -> Seq<char> {
    Seq::new(tier as nat, |i: int| '#').push(' ')
}

/// The image with the source key `url` that `replace` takes from a store
/// that holds one: the first live one at or after the id `floor`, else the
/// first in the side cache.
pub open spec fn held_image<'a>(
    live: Seq<WidgetSource<'a>>,
    cache: Seq<EvictedImage>,
    floor: SourceID,
    url: Seq<char>,
) -> WidgetSource<'a> {
    let at = first_where(live, is_image_from(floor, url));
    if at < live.len() {
        live[at]
    } else {
        cache[first_where(cache, is_cached_of(url))].restored()
    }
}

/// Whether every image with the source key `url` in `after`, but for the
/// unit at `at`, is a unit of `live` that stands elsewhere than at `from`.
pub open spec fn no_image_added<'a>(
    live: Seq<WidgetSource<'a>>,
    after: Seq<WidgetSource<'a>>,
    from: int,
    at: int,
    url: Seq<char>,
) -> bool {
    forall|j: int|
        0 <= j < after.len() && j != at && (#[trigger] after[j]).is_image_of(url) ==> exists|
            k: int,
        |
            0 <= k < live.len() && k != from && #[trigger] live[k] == after[j]
}

/// The unit `image` under the id `id`.
pub open spec fn retagged<'a>(image: WidgetSource<'a>, id: SourceID) -> WidgetSource<'a> {
    WidgetSource { id, height: image.height, data: image.data }
}

/// The live list once `unit` has arrived: appended during the first parse
/// pass of a document, put in the place of the run with its id later.
pub open spec fn placed_live<'a>(
    live: Seq<WidgetSource<'a>>,
    unit: WidgetSource<'a>,
    first_load: bool,
) -> Seq<WidgetSource<'a>> {
    if first_load {
        live.push(unit)
    } else {
        updated(live, seq![unit])
    }
}

/// The side cache once `unit` has arrived.
pub open spec fn placed_cache<'a>(
    live: Seq<WidgetSource<'a>>,
    cache: Seq<EvictedImage>,
    unit: WidgetSource<'a>,
    first_load: bool,
) -> Seq<EvictedImage> {
    if first_load {
        cache
    } else {
        images_of(replaced_run(live, seq![unit])) + cache
    }
}

/// Whether `unit` is the two-row text line that stands in for a header on
/// its way: a line without extras whose text is the header's marker and then
/// its text, without the line endings that the text may hold.
pub open spec fn is_header_line(unit: WidgetSource<'_>, id: SourceID, tier: u8, text: Seq<char>) -> bool {
    &&& unit.id == id
    &&& unit.height == 2
    &&& unit.data matches WidgetSourceData::Line(line, extras)
    &&& extras@.len() == 0
    &&& line_text(line) == header_marker(tier) + without_line_endings(text)
}

/// Whether the store `live_after`, `cache_after` is what an image at the
/// unit `id` makes of `live`, `cache`. An image with the source key `url`
/// that the store holds is taken from its place by `replace` and put in the
/// place of the run with the id `id`. Where the store holds none, a loading
/// line arrives at the unit `id`.
pub open spec fn image_placed<'a>(
    live: Seq<WidgetSource<'a>>,
    cache: Seq<EvictedImage>,
    live_after: Seq<WidgetSource<'a>>,
    cache_after: Seq<EvictedImage>,
    first_load: bool,
    id: SourceID,
    url: Seq<char>,
) -> bool {
    if holds_image(live, cache, id, url) {
        exists|
            mid_live: Seq<WidgetSource<'a>>,
            mid_cache: Seq<EvictedImage>,
            image: WidgetSource<'a>,
        |
            {
                &&& #[trigger] replaced(live, cache, mid_live, mid_cache, id, url, Some(image))
                &&& live_after == updated(mid_live, seq![retagged(image, id)])
                &&& cache_after == images_of(replaced_run(mid_live, seq![retagged(image, id)]))
                    + mid_cache
            }
    } else {
        exists|unit: WidgetSource<'a>|
            {
                &&& #[trigger] unit.is_loading(id, url)
                &&& live_after == placed_live(live, unit, first_load)
                &&& cache_after == placed_cache(live, cache, unit, first_load)
            }
    }
}

impl<'a> Model<'a> {
    /// Whether everything but the store is the same in `self` and `after`.
    pub open spec fn same_but_store(&self, after: &Model<'a>) -> bool {
        &&& after.bg == self.bg
        &&& after.scroll == self.scroll
        &&& after.scroll_by_mul == self.scroll_by_mul
        &&& after.cursor == self.cursor
        &&& after.screen_size == self.screen_size
        &&& after.padding == self.padding
        &&& after.document_id == self.document_id
    }

    /// Whether `event` belongs to a parse pass of another document than the
    /// one that is open.
    pub open spec fn is_stale(&self, event: &Event<'a>) -> bool {
        event.gate() matches Some(document_id) && document_id.id != self.document_id.id
    }

    /// Whether `event` keeps to what the worker owes the coordinator: a
    /// parsed unit is no image, the units of an update share one id, and a
    /// unit that arrives during the first parse pass has a new id.
    pub open spec fn accepts(&self, event: &Event<'a>) -> bool {
        let first_load = self.document_id.reload_id == 0;
        self.is_stale(event) || match event {
            Event::Parsed(_, source) => !(source.data is Image) && (first_load ==> !contains_id(
                self.sources@,
                source.id,
            )),
            Event::Update(_, updates) => same_id(updates@),
            Event::ParseImage(_, id, url, _, _) => first_load && !holds_image(
                self.sources@,
                self.sources.evicted(),
                *id,
                url@,
            ) ==> !contains_id(self.sources@, *id),
            Event::ParseHeader(_, id, _, _) => first_load ==> !contains_id(self.sources@, *id),
            _ => true,
        }
    }

    /// Whether `event` keeps to what the worker owes the coordinator, for a
    /// caller to find out before it hands the event on.
    pub fn check_accepts(&self, event: &Event<'a>) -> (fine: bool)
        ensures
            fine == self.accepts(event),
    {
        let first_load = self.document_id.is_first_load();
        match event {
            Event::Parsed(document_id, source) => {
                if !self.document_id.is_same_document(document_id) {
                    return true;
                }
                let image = match &source.data {
                    WidgetSourceData::Image(_, _) => true,
                    _ => false,
                };
                !image && (!first_load || !self.sources.contains_id(source.id))
            },
            Event::Update(document_id, updates) => {
                !self.document_id.is_same_document(document_id) || share_id(updates)
            },
            Event::ParseImage(document_id, id, url, _, _) => {
                if !self.document_id.is_same_document(document_id) {
                    return true;
                }
                !first_load || self.sources.holds_image(*id, url.as_str())
                    || !self.sources.contains_id(*id)
            },
            Event::ParseHeader(document_id, id, _, _) => {
                !self.document_id.is_same_document(document_id) || !first_load
                    || !self.sources.contains_id(*id)
            },
            _ => true,
        }
    }

    /// Puts `unit` into the store: appended during the first parse pass of a
    /// document, in the place of the run with its id later.
    fn place(&mut self, unit: WidgetSource<'a>)
        requires
            old(self).document_id.reload_id == 0 ==> !contains_id(old(self).sources@, unit.id),
        ensures
            old(self).same_but_store(final(self)),
            final(self).sources@ == placed_live(
                old(self).sources@,
                unit,
                old(self).document_id.reload_id == 0,
            ),
            final(self).sources.evicted() == placed_cache(
                old(self).sources@,
                old(self).sources.evicted(),
                unit,
                old(self).document_id.reload_id == 0,
            ),
    {
        if self.document_id.is_first_load() {
            self.sources.push(unit);
        } else {
            let mut units: Vec<WidgetSource<'a>> = Vec::new();
            units.push(unit);
            assert(units@ =~= seq![unit]);
            self.sources.update(units);
        }
    }

    /// Whether `after` and `out` are what `event` makes of the state. An
    /// event of a parse pass of another document than the open one changes
    /// nothing and asks for nothing. A new generation is taken up. The end of
    /// a parse pass trims the store. A unit that is ready, a header and an
    /// image are placed in the store; for an image that the store holds
    /// already, that image is placed, and for the others the worker is asked
    /// to make what is missing. An update replaces a run. A change of the
    /// file asks for a reload.
    pub open spec fn processed(
        &self,
        event: Event<'a>,
        screen_width: u16,
        after: &Model<'a>,
        out: Processed,
    ) -> bool {
        &&& (self.is_stale(&event) ==> *after == *self && out.request is None && !out.parse_done)
        &&& !self.is_stale(&event) ==> match event {
            Event::NewDocument(document_id) => {
                &&& after.document_id == document_id
                &&& after.sources == self.sources
                &&& after.bg == self.bg
                &&& after.scroll == self.scroll
                &&& after.scroll_by_mul == self.scroll_by_mul
                &&& after.cursor == self.cursor
                &&& after.screen_size == self.screen_size
                &&& after.padding == self.padding
                &&& out.request is None
                &&& !out.parse_done
            },
            Event::ParseDone(_, last_source_id) => {
                &&& self.same_but_store(after)
                &&& after.sources@ == trimmed(self.sources@, last_source_id)
                &&& after.sources.evicted().len() == 0
                &&& out.request is None
                &&& out.parse_done
            },
            Event::Parsed(_, source) => {
                &&& self.same_but_store(after)
                &&& after.sources@ == placed_live(
                    self.sources@,
                    source,
                    self.document_id.reload_id == 0,
                )
                &&& after.sources.evicted() == placed_cache(
                    self.sources@,
                    self.sources.evicted(),
                    source,
                    self.document_id.reload_id == 0,
                )
                &&& out.request is None
                &&& !out.parse_done
            },
            Event::Update(_, updates) => {
                &&& self.same_but_store(after)
                &&& after.sources@ == updated(self.sources@, updates@)
                &&& after.sources.evicted() == images_of(
                    replaced_run(self.sources@, updates@),
                ) + self.sources.evicted()
                &&& out.request is None
                &&& !out.parse_done
            },
            Event::ParseImage(document_id, id, url, text, title) => {
                &&& self.same_but_store(after)
                &&& image_placed(
                    self.sources@,
                    self.sources.evicted(),
                    after.sources@,
                    after.sources.evicted(),
                    self.document_id.reload_id == 0,
                    id,
                    url@,
                )
                &&& out.request == if holds_image(
                    self.sources@,
                    self.sources.evicted(),
                    id,
                    url@,
                ) {
                    None
                } else {
                    Some(
                        Request::Send(
                            Cmd::UrlImage(
                                document_id,
                                id,
                                self.padding.calculate_width(screen_width),
                                url,
                                text,
                                title,
                            ),
                        ),
                    )
                }
                &&& !out.parse_done
            },
            Event::ParseHeader(document_id, id, tier, text) => {
                &&& self.same_but_store(after)
                &&& exists|unit: WidgetSource<'a>|
                    {
                        &&& #[trigger] is_header_line(unit, id, tier, text@)
                        &&& after.sources@ == placed_live(
                            self.sources@,
                            unit,
                            self.document_id.reload_id == 0,
                        )
                        &&& after.sources.evicted() == placed_cache(
                            self.sources@,
                            self.sources.evicted(),
                            unit,
                            self.document_id.reload_id == 0,
                        )
                    }
                &&& out.request == Some(
                    Request::Send(
                        Cmd::Header(
                            document_id,
                            id,
                            self.padding.calculate_width(screen_width),
                            tier,
                            text,
                        ),
                    ),
                )
                &&& !out.parse_done
            },
            Event::FileChanged => {
                &&& *after == *self
                &&& out.request == Some(Request::Reload)
                &&& !out.parse_done
            },
        }
    }

    /// Applies one event of the worker. An event of a parse pass of another
    /// document than the open one changes nothing and asks for nothing.
    pub fn process_event(&mut self, event: Event<'a>, screen_width: u16) -> (out: Processed)
        requires
            old(self).accepts(&event),
        ensures
            old(self).processed(event, screen_width, final(self), out),
    {
        let inner_width = self.inner_width(screen_width);
        match event {
            Event::NewDocument(document_id) => {
                self.document_id = document_id;
                Processed { parse_done: false, request: None }
            },
            Event::ParseDone(document_id, last_source_id) => {
                if !self.document_id.is_same_document(&document_id) {
                    return Processed { parse_done: false, request: None };
                }
                self.sources.trim_last_source(last_source_id);
                Processed { parse_done: true, request: None }
            },
            Event::Parsed(document_id, source) => {
                if !self.document_id.is_same_document(&document_id) {
                    return Processed { parse_done: false, request: None };
                }
                self.place(source);
                Processed { parse_done: false, request: None }
            },
            Event::Update(document_id, updates) => {
                if !self.document_id.is_same_document(&document_id) {
                    return Processed { parse_done: false, request: None };
                }
                self.sources.update(updates);
                Processed { parse_done: false, request: None }
            },
            Event::ParseImage(document_id, id, url, text, title) => {
                if !self.document_id.is_same_document(&document_id) {
                    return Processed { parse_done: false, request: None };
                }
                let ghost live = self.sources@;
                let ghost cache = self.sources.evicted();
                match self.sources.replace(id, url.as_str()) {
                    Some(existing_image) => {
                        let ghost mid_live = self.sources@;
                        let ghost mid_cache = self.sources.evicted();
                        let ghost found = Some(existing_image);
                        let image = WidgetSource {
                            id,
                            height: existing_image.height,
                            data: existing_image.data,
                        };
                        let mut units: Vec<WidgetSource<'a>> = Vec::new();
                        units.push(image);
                        assert(units@ =~= seq![retagged(existing_image, id)]);
                        self.sources.update(units);
                        proof {
                            assert(replaced(live, cache, mid_live, mid_cache, id, url@, found));
                            assert(holds_image(live, cache, id, url@));
                            assert(image_placed(
                                live,
                                cache,
                                self.sources@,
                                self.sources.evicted(),
                                self.document_id.reload_id == 0,
                                id,
                                url@,
                            ));
                        }
                        Processed { parse_done: false, request: None }
                    },
                    None => {
                        let unit = WidgetSource::loading(id, url.as_str());
                        self.place(unit);
                        proof {
                            assert(!holds_image(live, cache, id, url@));
                            assert(unit.is_loading(id, url@));
                            assert(image_placed(
                                live,
                                cache,
                                self.sources@,
                                self.sources.evicted(),
                                self.document_id.reload_id == 0,
                                id,
                                url@,
                            ));
                        }
                        Processed {
                            parse_done: false,
                            request: Some(
                                Request::Send(
                                    Cmd::UrlImage(document_id, id, inner_width, url, text, title),
                                ),
                            ),
                        }
                    },
                }
            },
            Event::ParseHeader(document_id, id, tier, text) => {
                if !self.document_id.is_same_document(&document_id) {
                    return Processed { parse_done: false, request: None };
                }
                let unit = header_line(id, tier, text.clone());
                self.place(unit);
                Processed {
                    parse_done: false,
                    request: Some(Request::Send(Cmd::Header(document_id, id, inner_width, tier, text))),
                }
            },
            Event::FileChanged => Processed { parse_done: false, request: Some(Request::Reload) },
        }
    }

    /// Whether `event` keeps to the protocol, asks for nothing and leads to
    /// the state `after` with the outcome `out`, and `had_done` tells whether
    /// it or an event before it ended a parse pass.
    pub open spec fn follows(
        &self,
        event: Event<'a>,
        screen_width: u16,
        after: &Model<'a>,
        out: Processed,
        done: bool,
        had_done: bool,
    ) -> bool {
        &&& self.accepts(&event)
        &&& self.processed(event, screen_width, after, out)
        &&& out.request is None
        &&& had_done == (done || out.parse_done)
    }

    /// Whether `after` is the state once the first `upto` of `events` were
    /// applied one after the other, each kept to the protocol and none
    /// asking for anything, and `had_done` tells whether one of them ended a
    /// parse pass.
    pub open spec fn applied(
        &self,
        events: Seq<Event<'a>>,
        screen_width: u16,
        upto: int,
        after: &Model<'a>,
        had_done: bool,
    ) -> bool
        decreases upto,
    {
        if upto <= 0 {
            *after == *self && !had_done
        } else {
            exists|mid: Model<'a>, done: bool, out: Processed|
                {
                    &&& self.applied(events, screen_width, upto - 1, &mid, done)
                    &&& #[trigger] mid.follows(
                        events[upto - 1],
                        screen_width,
                        after,
                        out,
                        done,
                        had_done,
                    )
                }
        }
    }

    /// One more event that asks for nothing carries `applied` one event on.
    pub proof fn lemma_applied_step(
        &self,
        events: Seq<Event<'a>>,
        screen_width: u16,
        upto: int,
        mid: Model<'a>,
        done: bool,
        after: Model<'a>,
        out: Processed,
    )
        requires
            upto > 0,
            self.applied(events, screen_width, upto - 1, &mid, done),
            mid.accepts(&events[upto - 1]),
            mid.processed(events[upto - 1], screen_width, &after, out),
            out.request is None,
        ensures
            self.applied(events, screen_width, upto, &after, done || out.parse_done),
    {
        assert(mid.follows(
            events[upto - 1],
            screen_width,
            &after,
            out,
            done,
            done || out.parse_done,
        ));
    }

    /// A run of one event that keeps to the protocol applies it, and hands
    /// on what it asks for.
    pub proof fn lemma_drained_one(
        &self,
        event: Event<'a>,
        screen_width: u16,
        after: Model<'a>,
        out: Drained<'a>,
    )
        requires
            self.accepts(&event),
            self.drained(seq![event], screen_width, &after, out),
        ensures
            exists|step: Processed|
                {
                    &&& #[trigger] self.processed(event, screen_width, &after, step)
                    &&& step.request == out.request
                    &&& out.request is None ==> out.had_done == step.parse_done
                },
            out.left@.len() == 0,
            out.had_events,
    {
        let events = seq![event];
        let (count, mid, done) = choose|count: int, mid: Model<'a>, done: bool|
            {
                &&& 0 <= count <= events.len()
                &&& #[trigger] self.applied(events, screen_width, count, &mid, done)
                &&& if count == events.len() {
                    &&& after == mid
                    &&& out.request is None
                    &&& out.left@.len() == 0
                    &&& out.had_done == done
                } else if !mid.accepts(&events[count]) {
                    &&& after == mid
                    &&& out.request is None
                    &&& out.left@ == events.subrange(count, events.len() as int)
                    &&& out.had_done == done
                } else {
                    &&& out.request is Some
                    &&& mid.processed(
                        events[count],
                        screen_width,
                        &after,
                        Processed { parse_done: false, request: out.request },
                    )
                    &&& out.had_done == done
                    &&& out.left@ == events.subrange(count + 1, events.len() as int)
                }
            };
        if count == 0 {
            assert(mid == *self);
            assert(self.processed(
                event,
                screen_width,
                &after,
                Processed { parse_done: false, request: out.request },
            ));
        } else {
            let (first, before_done, step) = choose|
                first: Model<'a>,
                before_done: bool,
                step: Processed,
            |
                {
                    &&& self.applied(events, screen_width, 0, &first, before_done)
                    &&& #[trigger] first.follows(
                        events[0],
                        screen_width,
                        &mid,
                        step,
                        before_done,
                        done,
                    )
                };
            assert(first == *self);
            assert(self.processed(event, screen_width, &after, step));
        }
    }

    /// Reuse: an image that the store holds is not asked for again. Where
    /// an image request for the open document is the only event, the ids of
    /// the store never decrease, its unit is in the store or above every
    /// unit of it, and the store holds an image with the request's source
    /// key, live at or after the unit or in the side cache, the run asks
    /// for nothing and leaves nothing unapplied. Afterwards the held image,
    /// with its height and its encoding, is the only unit with the id of
    /// the request, and every other image with that source key was in the
    /// store before, at another place than the held one.
    pub proof fn lemma_held_image_is_reused(
        &self,
        event: Event<'a>,
        screen_width: u16,
        after: Model<'a>,
        out: Drained<'a>,
    )
        requires
            !self.is_stale(&event),
            event matches Event::ParseImage(_, id, url, _, _) && holds_image(
                self.sources@,
                self.sources.evicted(),
                id,
                url@,
            ) && (contains_id(self.sources@, id) || ids_below(self.sources@, id)),
            ids_ordered(self.sources@),
            self.drained(seq![event], screen_width, &after, out),
        ensures
            out.request is None,
            out.left@.len() == 0,
            event matches Event::ParseImage(_, id, url, _, _) && held_image(
                self.sources@,
                self.sources.evicted(),
                id,
                url@,
            ).is_image_of(url@) && exists|at: int|
                {
                    &&& is_only(
                        after.sources@,
                        at,
                        retagged(
                            held_image(self.sources@, self.sources.evicted(), id, url@),
                            id,
                        ),
                    )
                    &&& no_image_added(
                        self.sources@,
                        after.sources@,
                        first_where(self.sources@, is_image_from(id, url@)),
                        at,
                        url@,
                    )
                },
    {
        let live = self.sources@;
        let cache = self.sources.evicted();
        self.lemma_drained_one(event, screen_width, after, out);
        if let Event::ParseImage(_, id, url, _, _) = event {
            let held = held_image(live, cache, id, url@);
            let from = first_where(live, is_image_from(id, url@));
            lemma_first_where(live, is_image_from(id, url@));
            lemma_first_where(cache, is_cached_of(url@));
            let (mid_live, mid_cache, image) = choose|
                mid_live: Seq<WidgetSource<'a>>,
                mid_cache: Seq<EvictedImage>,
                image: WidgetSource<'a>,
            |
                {
                    &&& #[trigger] replaced(live, cache, mid_live, mid_cache, id, url@, Some(image))
                    &&& after.sources@ == updated(mid_live, seq![retagged(image, id)])
                    &&& after.sources.evicted() == images_of(
                        replaced_run(mid_live, seq![retagged(image, id)]),
                    ) + mid_cache
                };
            assert(image == held);
            assert(mid_live.len() == live.len());
            assert forall|j: int| 0 <= j < live.len() implies (#[trigger] mid_live[j]).id
                == live[j].id by {}
            assert(ids_ordered(mid_live)) by {
                assert forall|i: int, j: int| 0 <= i <= j < mid_live.len() implies (
                #[trigger] mid_live[i]).id <= (#[trigger] mid_live[j]).id by {
                    assert(live[i].id <= live[j].id);
                }
            }
            if contains_id(live, id) {
                let k = choose|k: int| 0 <= k < live.len() && (#[trigger] live[k]).id == id;
                assert(mid_live[k].id == id);
            } else {
                assert forall|j: int| 0 <= j < mid_live.len() implies (#[trigger] mid_live[j]).id
                    < id by {
                    assert(live[j].id < id);
                }
            }
            lemma_update_places_one(mid_live, retagged(image, id));
            let at = run_start(mid_live, id);
            assert(is_only(after.sources@, at, retagged(held, id)));
            assert forall|j: int|
                0 <= j < after.sources@.len() && j != at && (
                #[trigger] after.sources@[j]).is_image_of(url@) implies exists|k: int|
                0 <= k < live.len() && k != from && #[trigger] live[k] == after.sources@[j] by {
                assert(mid_live.contains(after.sources@[j]));
                let k = choose|k: int| 0 <= k < mid_live.len() && mid_live[k] == after.sources@[j];
                assert(live[k] == mid_live[k]);
            }
        }
    }

    /// A unit that is ready takes the place of the run with its id. Where
    /// it is the only event, belongs to a later parse pass of the open
    /// document and is no image, the ids of the store never decrease, and
    /// the unit is in the store or above every unit of it, the run asks for
    /// nothing, and afterwards the unit is the only one with its id; every
    /// other unit was in the store before.
    pub proof fn lemma_parsed_unit_is_placed(
        &self,
        event: Event<'a>,
        screen_width: u16,
        after: Model<'a>,
        out: Drained<'a>,
    )
        requires
            !self.is_stale(&event),
            self.document_id.reload_id != 0,
            event matches Event::Parsed(_, unit) && !(unit.data is Image) && (contains_id(
                self.sources@,
                unit.id,
            ) || ids_below(self.sources@, unit.id)),
            ids_ordered(self.sources@),
            self.drained(seq![event], screen_width, &after, out),
        ensures
            out.request is None,
            out.left@.len() == 0,
            !out.had_done,
            event matches Event::Parsed(_, unit) && is_only(
                after.sources@,
                run_start(self.sources@, unit.id),
                unit,
            ) && forall|j: int|
                0 <= j < after.sources@.len() && j != run_start(self.sources@, unit.id)
                    ==> self.sources@.contains(#[trigger] after.sources@[j]),
    {
        self.lemma_drained_one(event, screen_width, after, out);
        if let Event::Parsed(_, unit) = event {
            lemma_update_places_one(self.sources@, unit);
        }
    }

    /// The end of a parse pass drops what the pass did not reach. Where it
    /// is the only event and belongs to the open document, the ids of the
    /// store never decrease and the store holds the id of the last unit of
    /// the pass, the run asks for nothing and tells that a pass has ended.
    /// Afterwards the store holds the units up to the last with that id, as
    /// they were, and none with an id above it.
    pub proof fn lemma_done_drops_the_rest(
        &self,
        event: Event<'a>,
        screen_width: u16,
        after: Model<'a>,
        out: Drained<'a>,
    )
        requires
            !self.is_stale(&event),
            event matches Event::ParseDone(_, Some(last)) && contains_id(self.sources@, last),
            ids_ordered(self.sources@),
            self.drained(seq![event], screen_width, &after, out),
        ensures
            out.request is None,
            out.left@.len() == 0,
            out.had_done,
            after.sources@.is_prefix_of(self.sources@),
            event matches Event::ParseDone(_, Some(last)) && after.sources@.len() > 0
                && after.sources@.last().id == last && forall|j: int|
                after.sources@.len() <= j < self.sources@.len() ==> (
                #[trigger] self.sources@[j]).id > last,
    {
        self.lemma_drained_one(event, screen_width, after, out);
        if let Event::ParseDone(_, Some(last)) = event {
            let live = self.sources@;
            lemma_run_bounds(live, last);
            let end = run_end(live, last);
            if live.last().id == last {
                assert(after.sources@ == live);
            } else {
                assert(after.sources@ == live.subrange(0, end));
                assert(live[end - 1].id == last);
                assert forall|j: int| end <= j < live.len() implies (#[trigger] live[j]).id
                    > last by {
                    assert(live[end - 1].id <= live[end].id);
                    assert(live[end].id <= live[j].id);
                }
            }
        }
    }

    /// Whether `after` and `out` are what a run of `events` leaves. The
    /// events are applied in their order, up to and with the first that asks
    /// for something, and up to and without the first that breaks the
    /// protocol; the rest is left.
    pub open spec fn drained(
        &self,
        events: Seq<Event<'a>>,
        screen_width: u16,
        after: &Model<'a>,
        out: Drained<'a>,
    ) -> bool {
        &&& out.had_events == (events.len() > 0)
        &&& exists|count: int, mid: Model<'a>, done: bool|
            {
                &&& 0 <= count <= events.len()
                &&& #[trigger] self.applied(events, screen_width, count, &mid, done)
                &&& if count == events.len() {
                    &&& *after == mid
                    &&& out.request is None
                    &&& out.left@.len() == 0
                    &&& out.had_done == done
                } else if !mid.accepts(&events[count]) {
                    &&& *after == mid
                    &&& out.request is None
                    &&& out.left@ == events.subrange(count, events.len() as int)
                    &&& out.had_done == done
                } else {
                    &&& out.request is Some
                    &&& mid.processed(
                        events[count],
                        screen_width,
                        after,
                        Processed { parse_done: false, request: out.request },
                    )
                    &&& out.had_done == done
                    &&& out.left@ == events.subrange(count + 1, events.len() as int)
                }
            }
    }

    /// Applies the events that have arrived, in their order, as far as they
    /// ask for nothing: the run ends with the first event that asks for a
    /// command to be sent or for a reload, so that it can be done before the
    /// next event is applied, and before the first event that breaks the
    /// protocol. What was not applied is handed back.
    pub fn process_events(&mut self, events: Vec<Event<'a>>, screen_width: u16) -> (out: Drained<
        'a,
    >)
        ensures
            old(self).drained(events@, screen_width, final(self), out),
    {
        let had_events = events.len() > 0;
        let n = events.len();
        let mut back = reversed(events);
        let mut had_done = false;
        let mut count: usize = 0;
        while count < n
            invariant
                n == events@.len(),
                count <= n,
                had_events == (n > 0),
                back@ == events@.reverse().subrange(0, n - count),
                old(self).applied(events@, screen_width, count as int, self, had_done),
            decreases n - count,
        {
            let ghost mid = *self;
            let ghost done = had_done;
            assert(back@[n - count - 1] == events@[count as int]);
            if !self.check_accepts(&back[n - count - 1]) {
                let left = reversed(back);
                assert(left@ =~= events@.subrange(count as int, n as int));
                return Drained { had_events, had_done, request: None, left };
            }
            let event = back.pop().unwrap();
            let step = self.process_event(event, screen_width);
            assert(back@ =~= events@.reverse().subrange(0, n - count - 1));
            if step.request.is_some() {
                let left = reversed(back);
                assert(left@ =~= events@.subrange(count + 1, n as int));
                assert(!step.parse_done);
                return Drained { had_events, had_done, request: step.request, left };
            }
            had_done = had_done || step.parse_done;
            count += 1;
            proof {
                old(self).lemma_applied_step(
                    events@,
                    screen_width,
                    count as int,
                    mid,
                    done,
                    *self,
                    step,
                );
            }
        }
        let left = reversed(back);
        Drained { had_events, had_done, request: None, left }
    }

    /// Marks the matches of `needle` in every text line, without regard to
    /// case, in place of the search matches that were marked before. Without
    /// a needle, the marks go and none come.
    pub fn add_searches(&mut self, needle: Option<String>)
        ensures
            old(self).same_but_store(final(self)),
            final(self).sources@.len() == old(self).sources@.len(),
            forall|i: int|
                0 <= i < old(self).sources@.len() ==> searched_unit(
                    old(self).sources@[i],
                    #[trigger] final(self).sources@[i],
                    needle_search(needle),
                ),
            final(self).sources.evicted() == old(self).sources.evicted(),
    {
        let re: Option<Pattern> = match needle {
            Some(needle) => Some(Pattern::literal(needle.as_str())),
            None => None,
        };
        self.sources.add_searches(&re);
    }
}

/// The search for a needle: for the text as it is written, without regard
/// to case.
pub open spec fn needle_search(needle: Option<String>) -> Option<(Seq<char>, bool)> {
    match needle {
        Some(text) => Some((escaped_text(text@), true)),
        None => None,
    }
}

/// The two-row text line that stands in for a header on its way: its marker
/// in light blue, then its text.
pub fn header_line<'a>(id: SourceID, tier: u8, text: String) -> (unit: WidgetSource<'a>)
    ensures
        is_header_line(unit, id, tier, text@),
{
    let mut marker = String::new();
    let mut i: u8 = 0;
    while i < tier
        invariant
            i <= tier,
            marker@ == Seq::new(i as nat, |k: int| '#'),
        decreases tier - i,
    {
        marker.append("#");
        proof {
            reveal_strlit("#");
        }
        i += 1;
        assert(marker@ =~= Seq::new(i as nat, |k: int| '#'));
    }
    marker.append(" ");
    proof {
        reveal_strlit(" ");
        assert(marker@ =~= header_marker(tier));
        assert(!marker@.contains('\n')) by {
            if marker@.contains('\n') {
                let k = choose|k: int| 0 <= k < marker@.len() && marker@[k] == '\n';
                assert(marker@[k] == '#' || marker@[k] == ' ');
            }
        }
        lemma_without_line_endings(marker@);
    }
    WidgetSource {
        id,
        height: 2,
        data: WidgetSourceData::Line(marked_line(marker, text, HEADER_MARK_COLOR), Vec::new()),
    }
}

} // verus!
