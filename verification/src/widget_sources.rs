//! The ordered store of render units and the operations that reconcile it
//! with what the worker reports.

use crate::patterns::Pattern;
use crate::search::{search_of, searched_unit};
use crate::seqs::{first_where, lemma_first_where, lemma_first_where_is};
use crate::styled::{line_from_string, line_text, without_line_endings};
use ratatui::text::Line;
use ratatui_image::protocol::Protocol;
use vstd::prelude::*;
use vstd::string::StringExecFns;

verus! {

/// The id of a render unit: its number in the parse pass that made it.
pub type SourceID = usize;

/// A range of a text line with a meaning of its own. Offsets count display
/// columns.
#[derive(Debug, Clone)]
pub enum LineExtra {
    Link(String, u16, u16),
    SearchMatch(usize, usize, String),
}

/// What a render unit shows.
pub enum WidgetSourceData<'a> {
    Image(String, Protocol),
    BrokenImage(String, String),
    Line(Line<'a>, Vec<LineExtra>),
    Header(String, u8),
}

/// One render unit: a piece of the document with its id and its height in
/// terminal rows.
pub struct WidgetSource<'a> {
    pub id: SourceID,
    pub height: u16,
    pub data: WidgetSourceData<'a>,
}

/// An image that left the live list, kept so that the same source can be
/// shown again without decoding it anew.
pub struct EvictedImage {
    pub height: u16,
    pub url: String,
    pub protocol: Protocol,
}

/// The text of the line that stands in for an image on its way.
pub open spec fn loading_text(url: Seq<char>) -> Seq<char> {
    "![Loading...]("@ + url + ")"@
}

impl<'a> WidgetSource<'a> {
    /// Whether the unit shows an image whose source key is `url`.
    pub open spec fn is_image_of(&self, url: Seq<char>) -> bool {
        self.data matches WidgetSourceData::Image(key, _) && key@ == url
    }

    /// Whether the unit is the one-row text line that stands in for the
    /// image `url` under the id `id`: a line without extras whose text is the
    /// loading text, without the line endings that the address may hold.
    pub open spec fn is_loading(&self, id: SourceID, url: Seq<char>) -> bool {
        &&& self.id == id
        &&& self.height == 1
        &&& self.data matches WidgetSourceData::Line(line, extras)
        &&& extras@.len() == 0
        &&& line_text(line) == without_line_endings(loading_text(url))
    }

    /// The unit as the side cache keeps it, if it shows an image.
    pub open spec fn evicted(&self) -> Option<EvictedImage> {
        match self.data {
            WidgetSourceData::Image(url, protocol) => Some(
                EvictedImage { height: self.height, url, protocol },
            ),
            _ => None,
        }
    }

    /// The unit that shows a failed image: one row, with the source key and
    /// a description.
    pub fn image_unknown(id: SourceID, url: String, text: String) -> (unit: WidgetSource<'a>)
        ensures
            unit.id == id,
            unit.height == 1,
            unit.data == WidgetSourceData::<'a>::BrokenImage(url, text),
    {
        WidgetSource { id, height: 1, data: WidgetSourceData::BrokenImage(url, text) }
    }

    /// The one-row text line that stands in for the image `url`.
    pub fn loading(id: SourceID, url: &str) -> (unit: WidgetSource<'a>)
        ensures
            unit.is_loading(id, url@),
    {
        let mut text = String::from_str("![Loading...](");
        text.append(url);
        text.append(")");
        WidgetSource { id, height: 1, data: WidgetSourceData::Line(line_from_string(text), Vec::new()) }
    }
}

impl EvictedImage {
    /// The image as a render unit again, under the id 0.
    pub open spec fn restored<'a>(self) -> WidgetSource<'a> {
        WidgetSource {
            id: 0,
            height: self.height,
            data: WidgetSourceData::Image(self.url, self.protocol),
        }
    }
}

/// The units whose id is `id`.
pub open spec fn has_id<'a>(id: SourceID) -> spec_fn(WidgetSource<'a>) -> bool {
    |unit: WidgetSource<'a>| unit.id == id
}

/// The units whose id is another than `id`.
pub open spec fn has_other_id<'a>(id: SourceID) -> spec_fn(WidgetSource<'a>) -> bool {
    |unit: WidgetSource<'a>| unit.id != id
}

/// The units at or after the id `floor` that show the image `url`.
pub open spec fn is_image_from<'a>(floor: SourceID, url: Seq<char>) -> spec_fn(
    WidgetSource<'a>,
) -> bool {
    |unit: WidgetSource<'a>| unit.id >= floor && unit.is_image_of(url)
}

/// The cached images whose source key is `url`.
pub open spec fn is_cached_of(url: Seq<char>) -> spec_fn(EvictedImage) -> bool {
    |image: EvictedImage| image.url@ == url
}

/// Whether some unit of `s` has the id `id`.
pub open spec fn contains_id(s: Seq<WidgetSource<'_>>, id: SourceID) -> bool {
    exists|i: int| 0 <= i < s.len() && (#[trigger] s[i]).id == id
}

/// Whether every unit of `s` has an id below `id`.
pub open spec fn ids_below(s: Seq<WidgetSource<'_>>, id: SourceID) -> bool {
    forall|i: int| 0 <= i < s.len() ==> (#[trigger] s[i]).id < id
}

/// Whether all units of `s` share one id.
pub open spec fn same_id(s: Seq<WidgetSource<'_>>) -> bool {
    forall|i: int| 0 <= i < s.len() ==> (#[trigger] s[i]).id == s[0].id
}

/// Whether the ids of `s` never decrease.
pub open spec fn ids_ordered(s: Seq<WidgetSource<'_>>) -> bool {
    forall|i: int, j: int| 0 <= i <= j < s.len() ==> (#[trigger] s[i]).id <= (#[trigger] s[j]).id
}

/// Where the first unit with the id `id` stands; the length where there is
/// none.
pub open spec fn run_start(s: Seq<WidgetSource<'_>>, id: SourceID) -> int {
    first_where(s, has_id(id))
}

/// Where the run of units with the id `id` that begins at `run_start` ends:
/// the index after its last unit.
pub open spec fn run_end(s: Seq<WidgetSource<'_>>, id: SourceID) -> int {
    let start = run_start(s, id);
    start + first_where(s.subrange(start, s.len() as int), has_other_id(id))
}

/// The images among `removed`, in their order, as the cache keeps them.
pub open spec fn images_of(removed: Seq<WidgetSource<'_>>) -> Seq<EvictedImage>
    decreases removed.len(),
{
    if removed.len() == 0 {
        Seq::empty()
    } else {
        match removed[0].evicted() {
            Some(image) => seq![image] + images_of(removed.drop_first()),
            None => images_of(removed.drop_first()),
        }
    }
}

/// Whether the store holds an image with the source key `url`, live at or
/// after the id `floor` or in the side cache.
pub open spec fn holds_image(
    live: Seq<WidgetSource<'_>>,
    cache: Seq<EvictedImage>,
    floor: SourceID,
    url: Seq<char>,
) -> bool {
    first_where(live, is_image_from(floor, url)) < live.len() || first_where(
        cache,
        is_cached_of(url),
    ) < cache.len()
}

/// Whether all units of `units` share one id, computed.
pub fn share_id(units: &Vec<WidgetSource<'_>>) -> (same: bool)
    ensures
        same == same_id(units@),
{
    let n = units.len();
    let mut i: usize = 0;
    while i < n
        invariant
            n == units@.len(),
            i <= n,
            forall|j: int| 0 <= j < i ==> (#[trigger] units@[j]).id == units@[0].id,
        decreases n - i,
    {
        if units[i].id != units[0].id {
            return false;
        }
        i += 1;
    }
    true
}

/// What `replace` does to the live list and the side cache, and what it
/// returns. The first live image with the source key `url` at or after the
/// id `floor` is returned, and a loading line with its id stands in its
/// place. Without one, the first cached image with that key leaves the cache
/// and is returned under the id 0. Without that either, nothing changes.
pub open spec fn replaced<'a>(
    live: Seq<WidgetSource<'a>>,
    cache: Seq<EvictedImage>,
    live_after: Seq<WidgetSource<'a>>,
    cache_after: Seq<EvictedImage>,
    floor: SourceID,
    url: Seq<char>,
    found: Option<WidgetSource<'a>>,
) -> bool {
    let at = first_where(live, is_image_from(floor, url));
    let cached = first_where(cache, is_cached_of(url));
    if at < live.len() {
        &&& found == Some(live[at])
        &&& live_after.len() == live.len()
        &&& live_after[at].is_loading(live[at].id, url)
        &&& forall|j: int| 0 <= j < live.len() && j != at ==> live_after[j] == live[j]
        &&& cache_after == cache
    } else if cached < cache.len() {
        &&& found == Some(cache[cached].restored())
        &&& live_after == live
        &&& cache_after == cache.remove(cached)
    } else {
        &&& found is None
        &&& live_after == live
        &&& cache_after == cache
    }
}

/// The live list with the units from `start` to `end` replaced by `units`.
pub open spec fn spliced<'a>(
    live: Seq<WidgetSource<'a>>,
    start: int,
    end: int,
    units: Seq<WidgetSource<'a>>,
) -> Seq<WidgetSource<'a>> {
    live.subrange(0, start) + units + live.subrange(end, live.len() as int)
}

/// The live list after `update`: the first run of units with the id of
/// `units` gives way to `units`; without such a run, `units` are appended
/// where their id is above every id present; else nothing changes.
pub open spec fn updated<'a>(s: Seq<WidgetSource<'a>>, units: Seq<WidgetSource<'a>>) -> Seq<
    WidgetSource<'a>,
> {
    if units.len() == 0 {
        s
    } else if run_start(s, units[0].id) < s.len() {
        spliced(s, run_start(s, units[0].id), run_end(s, units[0].id), units)
    } else if ids_below(s, units[0].id) {
        s + units
    } else {
        s
    }
}

/// The units that `update` takes out of the live list.
pub open spec fn replaced_run<'a>(s: Seq<WidgetSource<'a>>, units: Seq<WidgetSource<'a>>) -> Seq<
    WidgetSource<'a>,
> {
    if units.len() > 0 && run_start(s, units[0].id) < s.len() {
        s.subrange(run_start(s, units[0].id), run_end(s, units[0].id))
    } else {
        Seq::empty()
    }
}

/// The live list after `trim_last_source`: it ends with the run of units
/// whose id is `last`, unless its last unit has that id already or none
/// has.
pub open spec fn trimmed<'a>(s: Seq<WidgetSource<'a>>, last: Option<SourceID>) -> Seq<
    WidgetSource<'a>,
> {
    match last {
        None => s,
        Some(id) => if s.len() > 0 && s.last().id == id {
            s
        } else if run_start(s, id) < s.len() {
            s.subrange(0, run_end(s, id))
        } else {
            s
        },
    }
}

/// The rows that the units of `s` take together.
pub open spec fn rows(s: Seq<WidgetSource<'_>>) -> nat
    decreases s.len(),
{
    if s.len() == 0 {
        0
    } else {
        rows(s.drop_last()) + s.last().height as nat
    }
}

/// The rows above the first unit with the id `id`; all rows where no unit
/// has it.
pub open spec fn rows_before(s: Seq<WidgetSource<'_>>, id: SourceID) -> nat {
    rows(s.subrange(0, run_start(s, id)))
}

/// The rows of a prefix are those of the prefix one shorter and the height
/// of the unit added.
pub proof fn lemma_rows_step(s: Seq<WidgetSource<'_>>, i: int)
    requires
        0 <= i < s.len(),
    ensures
        rows(s.subrange(0, i + 1)) == rows(s.subrange(0, i)) + s[i].height as nat,
{
    assert(s.subrange(0, i + 1).drop_last() =~= s.subrange(0, i));
}

/// The rows of a prefix never exceed the rows of the whole.
pub proof fn lemma_rows_prefix(s: Seq<WidgetSource<'_>>, i: int)
    requires
        0 <= i <= s.len(),
    ensures
        rows(s.subrange(0, i)) <= rows(s),
    decreases s.len() - i,
{
    if i < s.len() {
        lemma_rows_step(s, i);
        lemma_rows_prefix(s, i + 1);
    } else {
        assert(s.subrange(0, i) =~= s);
    }
}

/// The render units of the document that is open: the live list, and a
/// side cache of the images that left it since the last trim.
pub struct WidgetSources<'a> {
    pub(crate) sources: Vec<WidgetSource<'a>>,
    pub(crate) updated_images: Vec<EvictedImage>,
}

impl<'a> WidgetSources<'a> {
    /// The live list, in document order.
    pub closed spec fn view(&self) -> Seq<WidgetSource<'a>> {
        self.sources@
    }

    /// The side cache: the images that left the live list since the last
    /// trim, the latest first.
    pub closed spec fn evicted(&self) -> Seq<EvictedImage> {
        self.updated_images@
    }

    /// An empty store.
    pub fn new() -> (store: Self)
        ensures
            store@ == Seq::<WidgetSource<'a>>::empty(),
            store.evicted() == Seq::<EvictedImage>::empty(),
    {
        WidgetSources { sources: Vec::new(), updated_images: Vec::new() }
    }

    /// The number of live units.
    pub fn len(&self) -> (n: usize)
        ensures
            n == self@.len(),
    {
        self.sources.len()
    }

    /// The live unit at `index`.
    pub fn get(&self, index: usize) -> (unit: Option<&WidgetSource<'a>>)
        ensures
            index < self@.len() ==> unit == Some(&self@[index as int]),
            index >= self@.len() ==> unit is None,
    {
        if index < self.sources.len() {
            Some(&self.sources[index])
        } else {
            None
        }
    }

    /// Whether a live unit has the id `id`.
    pub fn contains_id(&self, id: SourceID) -> (found: bool)
        ensures
            found == contains_id(self@, id),
    {
        let mut i: usize = 0;
        while i < self.sources.len()
            invariant
                i <= self.sources@.len(),
                forall|j: int| 0 <= j < i ==> (#[trigger] self.sources@[j]).id != id,
            decreases self.sources@.len() - i,
        {
            if self.sources[i].id == id {
                return true;
            }
            i += 1;
        }
        false
    }

    /// Whether `replace` would find an image with the source key `url`:
    /// live at or after the id `id`, or in the side cache.
    pub fn holds_image(&self, id: SourceID, url: &str) -> (held: bool)
        ensures
            held == holds_image(self@, self.evicted(), id, url@),
    {
        let key = String::from_str(url);
        let n = self.sources.len();
        let mut i: usize = 0;
        while i < n
            invariant
                n == self.sources@.len(),
                i <= n,
                key@ == url@,
                forall|j: int| 0 <= j < i ==> !is_image_from(id, url@)(#[trigger] self.sources@[j]),
            decreases n - i,
        {
            if self.sources[i].id >= id {
                let hit = match &self.sources[i].data {
                    WidgetSourceData::Image(existing, _) => *existing == key,
                    _ => false,
                };
                if hit {
                    proof {
                        lemma_first_where_is(self.sources@, is_image_from(id, url@), i as int);
                    }
                    return true;
                }
            }
            i += 1;
        }
        proof {
            lemma_first_where_is(self.sources@, is_image_from(id, url@), n as int);
        }
        let m = self.updated_images.len();
        let mut c: usize = 0;
        while c < m
            invariant
                m == self.updated_images@.len(),
                c <= m,
                key@ == url@,
                forall|j: int| 0 <= j < c ==> !is_cached_of(url@)(#[trigger] self.updated_images@[j]),
            decreases m - c,
        {
            if self.updated_images[c].url == key {
                proof {
                    lemma_first_where_is(self.updated_images@, is_cached_of(url@), c as int);
                }
                return true;
            }
            c += 1;
        }
        proof {
            lemma_first_where_is(self.updated_images@, is_cached_of(url@), m as int);
        }
        false
    }

    /// Appends a unit whose id no live unit has.
    pub fn push(&mut self, source: WidgetSource<'a>)
        requires
            !contains_id(old(self)@, source.id),
        ensures
            final(self)@ == old(self)@.push(source),
            final(self).evicted() == old(self).evicted(),
            ids_ordered(old(self)@) && ids_below(old(self)@, source.id) ==> ids_ordered(
                final(self)@,
            ),
    {
        self.sources.push(source);
    }

    /// The live units, in document order.
    pub fn sources(&self) -> (units: &Vec<WidgetSource<'a>>)
        ensures
            units@ == self@,
    {
        &self.sources
    }

    /// Replaces the run of live units that share the id of `updates` with
    /// `updates`, or appends them where their id is above every live id. The
    /// images that leave the live list go to the front of the side cache, in
    /// document order. An empty list changes nothing.
    pub fn update(&mut self, updates: Vec<WidgetSource<'a>>)
        requires
            same_id(updates@),
        ensures
            final(self)@ == updated(old(self)@, updates@),
            final(self).evicted() == images_of(replaced_run(old(self)@, updates@)) + old(
                self,
            ).evicted(),
            ids_ordered(old(self)@) ==> ids_ordered(final(self)@),
    {
        proof {
            if ids_ordered(self@) {
                lemma_update_keeps_order(self@, updates@);
            }
        }
        if updates.len() == 0 {
            return ;
        }
        let first_id = updates[0].id;
        let ghost units = updates@;
        let n = self.sources.len();
        let mut start: usize = 0;
        while start < n && self.sources[start].id != first_id
            invariant
                n == self.sources@.len(),
                start <= n,
                forall|j: int| 0 <= j < start ==> !has_id(first_id)(#[trigger] self.sources@[j]),
            decreases n - start,
        {
            start += 1;
        }
        proof {
            lemma_first_where_is(self.sources@, has_id(first_id), start as int);
        }
        if start < n {
            let ghost live = self.sources@;
            let ghost rest = live.subrange(start as int, n as int);
            let mut end: usize = start + 1;
            while end < n && self.sources[end].id == first_id
                invariant
                    n == self.sources@.len(),
                    self.sources@ == live,
                    rest == live.subrange(start as int, n as int),
                    start < end <= n,
                    forall|j: int| 0 <= j < end - start ==> !has_other_id(first_id)(#[trigger] rest[j]),
                decreases n - end,
            {
                end += 1;
            }
            proof {
                lemma_first_where_is(rest, has_other_id(first_id), end - start);
            }
            let mut tail = self.sources.split_off(end);
            let mut removed = self.sources.split_off(start);
            let mut updates = updates;
            self.sources.append(&mut updates);
            self.sources.append(&mut tail);
            let ghost run = removed@;
            let ghost cache = self.updated_images@;
            assert(run == live.subrange(start as int, end as int));
            while removed.len() > 0
                invariant
                    removed@.len() <= run.len(),
                    removed@ == run.subrange(0, removed@.len() as int),
                    self.updated_images@ == images_of(
                        run.subrange(removed@.len() as int, run.len() as int),
                    ) + cache,
                    self.sources@ == spliced(live, start as int, end as int, units),
                decreases removed@.len(),
            {
                let ghost k = removed@.len() - 1;
                let unit = removed.pop().unwrap();
                proof {
                    let from = run.subrange(k, run.len() as int);
                    assert(from.drop_first() =~= run.subrange(k + 1, run.len() as int));
                    assert(from[0] == unit);
                    assert(removed@ =~= run.subrange(0, k));
                }
                let height = unit.height;
                match unit.data {
                    WidgetSourceData::Image(url, protocol) => {
                        self.updated_images.insert(0, EvictedImage { height, url, protocol });
                        assert(self.updated_images@ =~= images_of(run.subrange(k, run.len() as int))
                            + cache);
                    },
                    _ => {},
                }
            }
            assert(run.subrange(0, run.len() as int) =~= run);
        } else {
            let mut i: usize = 0;
            let mut below = true;
            while i < n
                invariant
                    n == self.sources@.len(),
                    i <= n,
                    below == ids_below(self.sources@.subrange(0, i as int), first_id),
                decreases n - i,
            {
                let ghost before = below;
                if self.sources[i].id >= first_id {
                    below = false;
                }
                proof {
                    let shorter = self.sources@.subrange(0, i as int);
                    let longer = self.sources@.subrange(0, i + 1);
                    if self.sources@[i as int].id >= first_id {
                        assert(longer[i as int].id >= first_id);
                    } else if before {
                        assert forall|j: int| 0 <= j < i + 1 implies (#[trigger] longer[j]).id
                            < first_id by {
                            if j < i {
                                assert(shorter[j].id < first_id);
                            }
                        }
                    } else {
                        let j = choose|j: int|
                            0 <= j < i && (#[trigger] shorter[j]).id >= first_id;
                        assert(longer[j].id >= first_id);
                    }
                }
                i += 1;
            }
            assert(self.sources@.subrange(0, n as int) =~= self.sources@);
            if below {
                let mut updates = updates;
                self.sources.append(&mut updates);
            }
            assert(images_of(Seq::<WidgetSource<'a>>::empty()) + self.updated_images@
                =~= self.updated_images@);
        }
    }
}

impl<'a> WidgetSources<'a> {
    /// Takes the image `url` out of the store for use under another id: the
    /// first live image with that source key at or after the id `id`, which
    /// gives way to a loading line in its place, or else the first cached
    /// image with that key, which leaves the cache and comes back under the
    /// id 0.
    pub fn replace(&mut self, id: SourceID, url: &str) -> (found: Option<WidgetSource<'a>>)
        ensures
            replaced(
                old(self)@,
                old(self).evicted(),
                final(self)@,
                final(self).evicted(),
                id,
                url@,
                found,
            ),
            ids_ordered(old(self)@) ==> ids_ordered(final(self)@),
    {
        let key = String::from_str(url);
        let n = self.sources.len();
        let mut i: usize = 0;
        while i < n
            invariant
                n == self.sources@.len(),
                i <= n,
                self.sources@ == old(self)@,
                self.updated_images@ == old(self).evicted(),
                key@ == url@,
                forall|j: int| 0 <= j < i ==> !is_image_from(id, url@)(#[trigger] self.sources@[j]),
            decreases n - i,
        {
            if self.sources[i].id >= id {
                let hit = match &self.sources[i].data {
                    WidgetSourceData::Image(existing, _) => *existing == key,
                    _ => false,
                };
                if hit {
                    proof {
                        lemma_first_where_is(self.sources@, is_image_from(id, url@), i as int);
                    }
                    let mut unit = WidgetSource::loading(self.sources[i].id, url);
                    core::mem::swap(&mut self.sources[i], &mut unit);
                    return Some(unit);
                }
            }
            i += 1;
        }
        proof {
            lemma_first_where_is(self.sources@, is_image_from(id, url@), n as int);
        }
        let m = self.updated_images.len();
        let mut c: usize = 0;
        while c < m
            invariant
                m == self.updated_images@.len(),
                c <= m,
                first_where(old(self)@, is_image_from(id, url@)) == old(self)@.len(),
                self.sources@ == old(self)@,
                self.updated_images@ == old(self).evicted(),
                key@ == url@,
                forall|j: int| 0 <= j < c ==> !is_cached_of(url@)(#[trigger] self.updated_images@[j]),
            decreases m - c,
        {
            if self.updated_images[c].url == key {
                proof {
                    lemma_first_where_is(self.updated_images@, is_cached_of(url@), c as int);
                }
                let image = self.updated_images.remove(c);
                return Some(
                    WidgetSource {
                        id: 0,
                        height: image.height,
                        data: WidgetSourceData::Image(image.url, image.protocol),
                    },
                );
            }
            c += 1;
        }
        proof {
            lemma_first_where_is(self.updated_images@, is_cached_of(url@), m as int);
        }
        None
    }

    /// Ends a parse pass: empties the side cache and, where `last_source_id`
    /// is the id of a live unit and not that of the last one, drops what
    /// follows the run of units with that id.
    pub fn trim_last_source(&mut self, last_source_id: Option<SourceID>)
        ensures
            final(self)@ == trimmed(old(self)@, last_source_id),
            final(self).evicted() == Seq::<EvictedImage>::empty(),
            ids_ordered(old(self)@) ==> ids_ordered(final(self)@),
    {
        proof {
            if ids_ordered(self@) {
                lemma_trim_keeps_order(self@, last_source_id);
            }
        }
        self.updated_images.clear();
        let last_id = match last_source_id {
            Some(id) => id,
            None => {
                return ;
            },
        };
        let n = self.sources.len();
        if n > 0 && self.sources[n - 1].id == last_id {
            return ;
        }
        let mut i: usize = 0;
        while i < n && self.sources[i].id != last_id
            invariant
                n == self.sources@.len(),
                i <= n,
                forall|j: int| 0 <= j < i ==> !has_id(last_id)(#[trigger] self.sources@[j]),
            decreases n - i,
        {
            i += 1;
        }
        proof {
            lemma_first_where_is(self.sources@, has_id(last_id), i as int);
        }
        if i < n {
            let ghost live = self.sources@;
            let ghost rest = live.subrange(i as int, n as int);
            let mut end: usize = i + 1;
            while end < n && self.sources[end].id == last_id
                invariant
                    n == self.sources@.len(),
                    self.sources@ == live,
                    rest == live.subrange(i as int, n as int),
                    i < end <= n,
                    forall|j: int| 0 <= j < end - i ==> !has_other_id(last_id)(#[trigger] rest[j]),
                decreases n - end,
            {
                end += 1;
            }
            proof {
                lemma_first_where_is(rest, has_other_id(last_id), end - i);
            }
            self.sources.truncate(end);
        }
    }

    /// The rows above the first live unit with the id `id`: the row at which
    /// that unit begins. Where no unit has the id, all rows.
    pub fn get_y(&self, id: SourceID) -> (y: i16)
        requires
            rows_before(self@, id) <= i16::MAX,
        ensures
            y == rows_before(self@, id),
    {
        let n = self.sources.len();
        let mut y: i16 = 0;
        let mut i: usize = 0;
        proof {
            lemma_first_where(self.sources@, has_id(id));
        }
        while i < n && self.sources[i].id != id
            invariant
                n == self.sources@.len(),
                i <= n,
                i <= run_start(self.sources@, id) <= n,
                forall|j: int| 0 <= j < i ==> !has_id(id)(#[trigger] self.sources@[j]),
                y == rows(self.sources@.subrange(0, i as int)),
                rows_before(self.sources@, id) <= i16::MAX,
            decreases n - i,
        {
            proof {
                lemma_rows_step(self.sources@, i as int);
                let start = run_start(self.sources@, id);
                assert(i < start) by {
                    lemma_first_where(self.sources@, has_id(id));
                    if i == start {
                        assert(has_id(id)(self.sources@[start]));
                    }
                }
                lemma_rows_prefix(self.sources@.subrange(0, start), i + 1);
                assert(self.sources@.subrange(0, start).subrange(0, i + 1)
                    =~= self.sources@.subrange(0, i + 1));
            }
            y += self.sources[i].height as i16;
            i += 1;
        }
        proof {
            lemma_first_where_is(self.sources@, has_id(id), i as int);
        }
        y
    }
}

/// Where the first run of units with the id `id` begins and ends, for a
/// list that holds the id.
pub proof fn lemma_run_bounds(s: Seq<WidgetSource<'_>>, id: SourceID)
    requires
        contains_id(s, id),
    ensures
        0 <= run_start(s, id) < run_end(s, id) <= s.len(),
        forall|j: int| 0 <= j < run_start(s, id) ==> (#[trigger] s[j]).id != id,
        forall|j: int| run_start(s, id) <= j < run_end(s, id) ==> (#[trigger] s[j]).id == id,
        run_end(s, id) < s.len() ==> s[run_end(s, id)].id != id,
{
    let start = run_start(s, id);
    lemma_first_where(s, has_id(id));
    let at = choose|i: int| 0 <= i < s.len() && (#[trigger] s[i]).id == id;
    if start == s.len() {
        assert(has_id(id)(s[at]));
    }
    let rest = s.subrange(start, s.len() as int);
    lemma_first_where(rest, has_other_id(id));
    let run = first_where(rest, has_other_id(id));
    assert(has_id(id)(rest[0]));
    assert forall|j: int| start <= j < start + run implies (#[trigger] s[j]).id == id by {
        assert(!has_other_id(id)(rest[j - start]));
    }
    assert forall|j: int| 0 <= j < start implies (#[trigger] s[j]).id != id by {
        assert(!has_id(id)(s[j]));
    }
    if start + run < s.len() {
        assert(has_other_id(id)(rest[run]));
    }
}

/// Replacing a run: in a list whose ids never decrease, `update` with a
/// non-empty list of units that share the id of a run of the list puts them
/// in that run's place, and leaves the units before and after it as they
/// were and where they were.
pub proof fn lemma_update_replaces_run<'a>(
    s: Seq<WidgetSource<'a>>,
    units: Seq<WidgetSource<'a>>,
    start: int,
    end: int,
)
    requires
        ids_ordered(s),
        units.len() > 0,
        same_id(units),
        0 <= start < end <= s.len(),
        forall|j: int| start <= j < end ==> (#[trigger] s[j]).id == units[0].id,
        start > 0 ==> s[start - 1].id != units[0].id,
        end < s.len() ==> s[end].id != units[0].id,
    ensures
        updated(s, units) == s.subrange(0, start) + units + s.subrange(end, s.len() as int),
        replaced_run(s, units) == s.subrange(start, end),
{
    let id = units[0].id;
    assert(s[start].id == id);
    assert forall|j: int| 0 <= j < start implies !has_id(id)(#[trigger] s[j]) by {
        assert(s[j].id <= s[start - 1].id);
        assert(s[start - 1].id <= s[start].id);
    }
    lemma_first_where_is(s, has_id(id), start);
    let rest = s.subrange(start, s.len() as int);
    assert forall|j: int| 0 <= j < end - start implies !has_other_id(id)(#[trigger] rest[j]) by {
        assert(s[start + j].id == id);
    }
    lemma_first_where_is(rest, has_other_id(id), end - start);
}

/// Whether `unit` stands at the place `at` of `s`, and no other unit of
/// `s` has its id.
pub open spec fn is_only<'a>(s: Seq<WidgetSource<'a>>, at: int, unit: WidgetSource<'a>) -> bool {
    &&& 0 <= at < s.len()
    &&& s[at] == unit
    &&& forall|j: int| 0 <= j < s.len() && j != at ==> (#[trigger] s[j]).id != unit.id
}

/// Placing one unit: in a list whose ids never decrease, and which holds
/// the id of `unit` or only ids below it, `update` with `unit` alone leaves
/// `unit` as the only unit with its id, where the run of that id began or,
/// without one, at the end. Every other unit of the result was in the
/// list.
pub proof fn lemma_update_places_one<'a>(s: Seq<WidgetSource<'a>>, unit: WidgetSource<'a>)
    requires
        ids_ordered(s),
        contains_id(s, unit.id) || ids_below(s, unit.id),
    ensures
        is_only(updated(s, seq![unit]), run_start(s, unit.id), unit),
        forall|j: int|
            0 <= j < updated(s, seq![unit]).len() && j != run_start(s, unit.id) ==> s.contains(
                #[trigger] updated(s, seq![unit])[j],
            ),
{
    let id = unit.id;
    let units = seq![unit];
    let after = updated(s, units);
    lemma_first_where(s, has_id(id));
    if contains_id(s, id) {
        lemma_run_bounds(s, id);
        let start = run_start(s, id);
        let end = run_end(s, id);
        assert(after == spliced(s, start, end, units));
        assert forall|j: int| 0 <= j < after.len() && j != start implies (#[trigger] after[j]).id
            != id && s.contains(after[j]) by {
            if j > start {
                let k = end + (j - start - 1);
                assert(after[j] == s[k]);
                assert(s[start].id <= s[end].id);
                assert(s[end].id <= s[k].id);
            } else {
                assert(after[j] == s[j]);
            }
        }
    } else {
        if run_start(s, id) < s.len() {
            assert(has_id(id)(s[run_start(s, id)]));
        }
        assert(after == s + units);
        assert forall|j: int| 0 <= j < after.len() && j != s.len() implies s.contains(
            #[trigger] after[j],
        ) by {
            assert(after[j] == s[j]);
        }
    }
}

/// `update` keeps a list whose ids never decrease in that order.
pub proof fn lemma_update_keeps_order<'a>(s: Seq<WidgetSource<'a>>, units: Seq<WidgetSource<'a>>)
    requires
        ids_ordered(s),
        same_id(units),
    ensures
        ids_ordered(updated(s, units)),
{
    if units.len() > 0 {
        let id = units[0].id;
        lemma_first_where(s, has_id(id));
        if run_start(s, id) < s.len() {
            assert(has_id(id)(s[run_start(s, id)]));
            assert(contains_id(s, id));
            lemma_run_bounds(s, id);
            let start = run_start(s, id);
            let end = run_end(s, id);
            let after = updated(s, units);
            assert forall|i: int, j: int| 0 <= i <= j < after.len() implies (#[trigger] after[i]).id
                <= (#[trigger] after[j]).id by {
                let a = if i < start {
                    s[i]
                } else if i < start + units.len() {
                    units[i - start]
                } else {
                    s[i - start - units.len() + end]
                };
                let b = if j < start {
                    s[j]
                } else if j < start + units.len() {
                    units[j - start]
                } else {
                    s[j - start - units.len() + end]
                };
                assert(after[i] == a);
                assert(after[j] == b);
                assert(s[start].id == id);
                if i < start {
                    assert(s[i].id <= s[start].id);
                }
                if j >= start + units.len() {
                    assert(s[start].id <= s[j - start - units.len() + end].id);
                }
            }
        } else if ids_below(s, id) {
            let after = s + units;
            assert forall|i: int, j: int| 0 <= i <= j < after.len() implies (#[trigger] after[i]).id
                <= (#[trigger] after[j]).id by {
                if j >= s.len() {
                    assert(after[j] == units[j - s.len()]);
                }
                if i >= s.len() {
                    assert(after[i] == units[i - s.len()]);
                }
            }
        }
    }
}

/// Trimming twice with the same id gives what trimming once gives.
pub proof fn lemma_trim_idempotent<'a>(s: Seq<WidgetSource<'a>>, last: Option<SourceID>)
    ensures
        trimmed(trimmed(s, last), last) == trimmed(s, last),
{
    if let Some(id) = last {
        lemma_first_where(s, has_id(id));
        if !(s.len() > 0 && s.last().id == id) && run_start(s, id) < s.len() {
            assert(has_id(id)(s[run_start(s, id)]));
            lemma_run_bounds(s, id);
            let once = trimmed(s, last);
            assert(once.last() == s[run_end(s, id) - 1]);
        }
    }
}

/// `trim_last_source` keeps a list whose ids never decrease in that order.
pub proof fn lemma_trim_keeps_order<'a>(s: Seq<WidgetSource<'a>>, last: Option<SourceID>)
    requires
        ids_ordered(s),
    ensures
        ids_ordered(trimmed(s, last)),
{
    if let Some(id) = last {
        lemma_first_where(s, has_id(id));
        if run_start(s, id) < s.len() {
            assert(has_id(id)(s[run_start(s, id)]));
            lemma_run_bounds(s, id);
        }
    }
}

/// Where the store holds an image with the source key `url`, live at or
/// after the id `floor` or in the side cache, `replace` finds one.
pub proof fn lemma_replace_finds<'a>(
    live: Seq<WidgetSource<'a>>,
    cache: Seq<EvictedImage>,
    floor: SourceID,
    url: Seq<char>,
)
    requires
        (exists|i: int| 0 <= i < live.len() && is_image_from(floor, url)(#[trigger] live[i])) || (
        exists|i: int| 0 <= i < cache.len() && is_cached_of(url)(#[trigger] cache[i])),
    ensures
        first_where(live, is_image_from(floor, url)) < live.len() || first_where(
            cache,
            is_cached_of(url),
        ) < cache.len(),
        first_where(live, is_image_from(floor, url)) < live.len() ==> live[first_where(
            live,
            is_image_from(floor, url),
        )].is_image_of(url),
        first_where(cache, is_cached_of(url)) < cache.len() ==> cache[first_where(
            cache,
            is_cached_of(url),
        )].restored::<'a>().is_image_of(url),
{
    lemma_first_where(live, is_image_from(floor, url));
    lemma_first_where(cache, is_cached_of(url));
}

impl WidgetSources<'_> {
    /// Runs a search over every live unit.
    pub fn add_searches(&mut self, re: &Option<Pattern>)
        ensures
            final(self)@.len() == old(self)@.len(),
            forall|i: int|
                0 <= i < old(self)@.len() ==> searched_unit(
                    old(self)@[i],
                    #[trigger] final(self)@[i],
                    search_of(*re),
                ),
            final(self).evicted() == old(self).evicted(),
    {
        let n = self.sources.len();
        let mut i: usize = 0;
        while i < n
            invariant
                n == self.sources@.len(),
                n == old(self).sources@.len(),
                i <= n,
                self.updated_images == old(self).updated_images,
                forall|j: int|
                    0 <= j < i ==> searched_unit(
                        old(self).sources@[j],
                        #[trigger] self.sources@[j],
                        search_of(*re),
                    ),
                forall|j: int| i <= j < n ==> self.sources@[j] == old(self).sources@[j],
            decreases n - i,
        {
            self.sources[i].add_search(re);
            i += 1;
        }
    }
}

impl<'a> Default for WidgetSources<'a> {
    fn default() -> (store: Self)
        ensures
            store@ == Seq::<WidgetSource<'a>>::empty(),
            store.evicted() == Seq::<EvictedImage>::empty(),
    {
        WidgetSources::new()
    }
}

} // verus!
