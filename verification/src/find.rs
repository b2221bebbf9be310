//! Walking the links and search matches of the live list.

use crate::cursor::CursorPointer;
use crate::seqs::{
    first_index, first_where, lemma_first_index_is, lemma_first_where, lemma_first_where_is,
};
use crate::widget_sources::{
    lemma_rows_prefix, lemma_rows_step, rows, LineExtra, WidgetSource, WidgetSourceData,
    WidgetSources,
};
use vstd::prelude::*;

verus! {

/// The direction of a step through the matches.
#[derive(Debug, Clone, Copy)]
pub enum FindMode {
    Prev,
    Next,
}

/// The kind of extra that the navigator looks for.
#[derive(Debug, Clone, Copy)]
pub enum FindTarget {
    Link,
    Search,
}

impl FindTarget {
    /// Whether `extra` is of the kind looked for.
    pub open spec fn spec_matches(&self, extra: &LineExtra) -> bool {
        match self {
            FindTarget::Link => extra is Link,
            FindTarget::Search => extra is SearchMatch,
        }
    }

    /// Whether `extra` is of the kind looked for.
    #[verifier::when_used_as_spec(spec_matches)]
    pub fn matches(&self, extra: &LineExtra) -> (hit: bool)
        ensures
            hit == self.spec_matches(extra),
    {
        match self {
            FindTarget::Link => match extra {
                LineExtra::Link(_, _, _) => true,
                _ => false,
            },
            FindTarget::Search => match extra {
                LineExtra::SearchMatch(_, _, _) => true,
                _ => false,
            },
        }
    }
}

/// The extras of the kind `target`.
pub open spec fn is_target(target: FindTarget) -> spec_fn(LineExtra) -> bool {
    |extra: LineExtra| target.matches(&extra)
}

/// The extras of a unit: those of a text line, none for any other unit.
pub open spec fn extras_of(unit: WidgetSource<'_>) -> Seq<LineExtra> {
    match unit.data {
        WidgetSourceData::Line(_, extras) => extras@,
        _ => Seq::empty(),
    }
}

/// The pointer to the first extra of the kind `target` in `unit`.
pub open spec fn located(unit: WidgetSource<'_>, target: FindTarget) -> Option<CursorPointer> {
    let index = first_where(extras_of(unit), is_target(target));
    if index < extras_of(unit).len() {
        Some(CursorPointer { id: unit.id, index: index as usize })
    } else {
        None
    }
}

/// The pointers to the extras of the kind `target` among the first `upto`
/// of `extras`, in their order.
pub open spec fn pointers(id: usize, extras: Seq<LineExtra>, target: FindTarget, upto: int) -> Seq<
    CursorPointer,
>
    decreases upto,
{
    if upto <= 0 {
        Seq::empty()
    } else if target.matches(&extras[upto - 1]) {
        pointers(id, extras, target, upto - 1).push(
            CursorPointer { id, index: (upto - 1) as usize },
        )
    } else {
        pointers(id, extras, target, upto - 1)
    }
}

/// The pointers to the extras of the kind `target` in `unit`, in their
/// order.
pub open spec fn unit_matches(unit: WidgetSource<'_>, target: FindTarget) -> Seq<CursorPointer> {
    pointers(unit.id, extras_of(unit), target, extras_of(unit).len() as int)
}

/// The pointers to the extras of the kind `target` among the first `upto`
/// units of `s`, in document order.
pub open spec fn matches_upto(s: Seq<WidgetSource<'_>>, target: FindTarget, upto: int) -> Seq<
    CursorPointer,
>
    decreases upto,
{
    if upto <= 0 {
        Seq::empty()
    } else {
        matches_upto(s, target, upto - 1) + unit_matches(s[upto - 1], target)
    }
}

/// All pointers to extras of the kind `target` in `s`, in document order.
pub open spec fn all_matches(s: Seq<WidgetSource<'_>>, target: FindTarget) -> Seq<CursorPointer> {
    matches_upto(s, target, s.len() as int)
}

/// The matches in the order in which `mode` walks them: document order for
/// `Next`, the reverse for `Prev`.
pub open spec fn ordered_matches(s: Seq<WidgetSource<'_>>, mode: FindMode, target: FindTarget) -> Seq<
    CursorPointer,
> {
    match mode {
        FindMode::Next => all_matches(s, target),
        FindMode::Prev => all_matches(s, target).reverse(),
    }
}

/// The pointers equal to `pointer`.
pub open spec fn is_pointer(pointer: CursorPointer) -> spec_fn(CursorPointer) -> bool {
    |other: CursorPointer| other == pointer
}

/// The match `steps` places after `current` in `flat`, going round at the
/// end; the first match where `current` is not among them.
pub open spec fn next_cursor(flat: Seq<CursorPointer>, current: CursorPointer, steps: int) -> Option<
    CursorPointer,
> {
    let at = first_where(flat, is_pointer(current));
    if at < flat.len() {
        Some(flat[(at + steps) % (flat.len() as int)])
    } else if flat.len() > 0 {
        Some(flat[0])
    } else {
        None
    }
}

/// The units with a match whose last row lies below the first `scroll`
/// rows.
pub open spec fn match_past(s: Seq<WidgetSource<'_>>, target: FindTarget, scroll: u16) -> spec_fn(
    int,
) -> bool {
    |i: int| rows(s.subrange(0, i + 1)) > scroll && located(s[i], target) is Some
}

/// The units with a match.
pub open spec fn match_at(s: Seq<WidgetSource<'_>>, target: FindTarget) -> spec_fn(int) -> bool {
    |i: int| located(s[i], target) is Some
}

/// The first match of the first unit that has one and reaches below the
/// first `scroll` rows; without such a unit, of the first unit that has one.
pub open spec fn first_cursor(s: Seq<WidgetSource<'_>>, target: FindTarget, scroll: u16) -> Option<
    CursorPointer,
> {
    let past = first_index(s.len() as int, match_past(s, target, scroll));
    let any = first_index(s.len() as int, match_at(s, target));
    if past < s.len() {
        located(s[past], target)
    } else if any < s.len() {
        located(s[any], target)
    } else {
        None
    }
}

/// The units with the id of `pointer` that hold an extra at its index.
pub open spec fn holds_extra<'a>(pointer: CursorPointer) -> spec_fn(WidgetSource<'a>) -> bool {
    |unit: WidgetSource<'a>| unit.id == pointer.id && pointer.index < extras_of(unit).len()
}

/// The units with the id of `pointer` that hold a link at its index.
pub open spec fn holds_link<'a>(pointer: CursorPointer) -> spec_fn(WidgetSource<'a>) -> bool {
    |unit: WidgetSource<'a>|
        unit.id == pointer.id && pointer.index < extras_of(unit).len() && extras_of(
            unit,
        )[pointer.index as int] is Link
}

/// The address of the link that `pointer` points at: that of the first unit
/// with its id that holds a link at its index.
pub open spec fn link_target(s: Seq<WidgetSource<'_>>, pointer: CursorPointer) -> Option<Seq<char>> {
    let at = first_where(s, holds_link(pointer));
    if at < s.len() {
        Some(extras_of(s[at])[pointer.index as int]->Link_0@)
    } else {
        None
    }
}

/// The pointer to the first extra of the kind `target` in `source`.
pub fn locate(source: &WidgetSource<'_>, target: FindTarget) -> (pointer: Option<CursorPointer>)
    ensures
        pointer == located(*source, target),
{
    match &source.data {
        WidgetSourceData::Line(_, extras) => {
            let n = extras.len();
            let mut i: usize = 0;
            while i < n && !target.matches(&extras[i])
                invariant
                    n == extras@.len(),
                    i <= n,
                    forall|j: int| 0 <= j < i ==> !is_target(target)(#[trigger] extras@[j]),
                decreases n - i,
            {
                i += 1;
            }
            proof {
                lemma_first_where_is(extras@, is_target(target), i as int);
            }
            if i < n {
                Some(CursorPointer { id: source.id, index: i })
            } else {
                None
            }
        },
        _ => {
            proof {
                lemma_first_where_is(extras_of(*source), is_target(target), 0);
            }
            None
        },
    }
}

impl<'a> WidgetSources<'a> {
    /// The pointers to the extras of the kind `target` in `source`, in the
    /// order in which `mode` walks them.
    pub fn line_extras_to_cursor_pointers(
        source: &WidgetSource<'a>,
        mode: FindMode,
        target: FindTarget,
    ) -> (found: Vec<CursorPointer>)
        ensures
            found@ == match mode {
                FindMode::Next => unit_matches(*source, target),
                FindMode::Prev => unit_matches(*source, target).reverse(),
            },
    {
        let mut found: Vec<CursorPointer> = Vec::new();
        let id = source.id;
        match &source.data {
            WidgetSourceData::Line(_, extras) => {
                let n = extras.len();
                match mode {
                    FindMode::Next => {
                        let mut i: usize = 0;
                        while i < n
                            invariant
                                n == extras@.len(),
                                i <= n,
                                found@ == pointers(id, extras@, target, i as int),
                            decreases n - i,
                        {
                            if target.matches(&extras[i]) {
                                found.push(CursorPointer { id, index: i });
                            }
                            i += 1;
                        }
                    },
                    FindMode::Prev => {
                        let mut i: usize = n;
                        while i > 0
                            invariant
                                n == extras@.len(),
                                i <= n,
                                pointers(id, extras@, target, i as int) + found@.reverse()
                                    == pointers(id, extras@, target, n as int),
                            decreases i,
                        {
                            let ghost before = found@;
                            i -= 1;
                            if target.matches(&extras[i]) {
                                found.push(CursorPointer { id, index: i });
                                assert(found@.reverse() =~= seq![CursorPointer { id, index: i }]
                                    + before.reverse());
                            }
                            assert(pointers(id, extras@, target, i as int) + found@.reverse()
                                =~= pointers(id, extras@, target, i + 1) + before.reverse());
                        }
                        assert(found@ =~= found@.reverse().reverse());
                        assert(found@.reverse() =~= pointers(id, extras@, target, n as int));
                    },
                }
            },
            _ => {
                assert(found@ =~= found@.reverse());
            },
        }
        found
    }

    /// All pointers to extras of the kind `target`, in the order in which
    /// `mode` walks the document.
    pub fn flatten_sources(&self, mode: FindMode, target: FindTarget) -> (flat: Vec<CursorPointer>)
        ensures
            flat@ == ordered_matches(self@, mode, target),
    {
        let units = self.sources();
        let n = units.len();
        let mut flat: Vec<CursorPointer> = Vec::new();
        match mode {
            FindMode::Next => {
                let mut i: usize = 0;
                while i < n
                    invariant
                        n == units@.len(),
                        i <= n,
                        mode is Next,
                        flat@ == matches_upto(units@, target, i as int),
                    decreases n - i,
                {
                    let mut more = Self::line_extras_to_cursor_pointers(&units[i], mode, target);
                    flat.append(&mut more);
                    i += 1;
                }
            },
            FindMode::Prev => {
                let mut i: usize = n;
                while i > 0
                    invariant
                        n == units@.len(),
                        i <= n,
                        mode is Prev,
                        matches_upto(units@, target, i as int) + flat@.reverse() == all_matches(
                            units@,
                            target,
                        ),
                    decreases i,
                {
                    let ghost before = flat@;
                    i -= 1;
                    let mut more = Self::line_extras_to_cursor_pointers(&units[i], mode, target);
                    let ghost added = more@;
                    flat.append(&mut more);
                    proof {
                        assert(added.reverse() =~= unit_matches(units@[i as int], target));
                        assert(flat@.reverse() =~= added.reverse() + before.reverse());
                        assert(matches_upto(units@, target, i as int) + flat@.reverse()
                            =~= matches_upto(units@, target, i + 1) + before.reverse());
                    }
                }
                assert(flat@ =~= flat@.reverse().reverse());
                assert(flat@.reverse() =~= all_matches(units@, target));
            },
        }
        flat
    }

    /// Where the navigator starts: the first match of the first unit that
    /// has one and reaches below the first `scroll` rows; without such a
    /// unit, the first match in the document.
    pub fn find_first_cursor(&self, target: FindTarget, scroll: u16) -> (found: Option<
        CursorPointer,
    >)
        requires
            rows(self@) <= u16::MAX,
        ensures
            found == first_cursor(self@, target, scroll),
    {
        let units = self.sources();
        let n = units.len();
        let mut first: Option<CursorPointer> = None;
        let mut offset_acc: u16 = 0;
        let mut i: usize = 0;
        let ghost mut any: int = n as int;
        while i < n
            invariant
                n == units@.len(),
                i <= n,
                units@ == self@,
                rows(units@) <= u16::MAX,
                offset_acc == rows(units@.subrange(0, i as int)),
                forall|j: int| 0 <= j < i ==> !#[trigger] match_past(units@, target, scroll)(j),
                first is None ==> forall|j: int|
                    0 <= j < i ==> !#[trigger] match_at(units@, target)(j),
                first is Some ==> 0 <= any < i && first == located(units@[any], target) && (
                forall|j: int| 0 <= j < any ==> !#[trigger] match_at(units@, target)(j)),
            decreases n - i,
        {
            proof {
                lemma_rows_step(units@, i as int);
                lemma_rows_prefix(units@, i + 1);
            }
            offset_acc += units[i].height;
            let here = locate(&units[i], target);
            if offset_acc <= scroll {
                if first.is_none() {
                    first = here;
                    proof {
                        if here is Some {
                            any = i as int;
                        }
                    }
                }
            } else if here.is_some() {
                proof {
                    lemma_first_index_is(
                        n as int,
                        match_past(units@, target, scroll),
                        i as int,
                    );
                }
                return here;
            }
            i += 1;
        }
        proof {
            lemma_first_index_is(n as int, match_past(units@, target, scroll), n as int);
            if first is Some {
                lemma_first_index_is(n as int, match_at(units@, target), any);
            } else {
                lemma_first_index_is(n as int, match_at(units@, target), n as int);
            }
        }
        first
    }

    /// The match `steps` places after `current` in the direction of `mode`,
    /// going round at the end of the document; the first match in that
    /// direction where `current` points at no match any more.
    pub fn find_next_cursor(
        &self,
        current: &CursorPointer,
        mode: FindMode,
        target: FindTarget,
        steps: i16,
    ) -> (found: Option<CursorPointer>)
        requires
            steps >= 0,
        ensures
            found == next_cursor(ordered_matches(self@, mode, target), *current, steps as int),
    {
        let flat = self.flatten_sources(mode, target);
        let total = flat.len();
        let mut at: usize = 0;
        while at < total && !(flat[at].id == current.id && flat[at].index == current.index)
            invariant
                total == flat@.len(),
                at <= total,
                forall|j: int| 0 <= j < at ==> !is_pointer(*current)(#[trigger] flat@[j]),
            decreases total - at,
        {
            at += 1;
        }
        proof {
            lemma_first_where_is(flat@, is_pointer(*current), at as int);
        }
        if at >= total {
            return if total > 0 {
                Some(flat[0])
            } else {
                None
            };
        }
        let step = (steps as usize) % total;
        let index = if at >= total - step {
            at - (total - step)
        } else {
            at + step
        };
        proof {
            lemma_step_round(at as int, steps as int, total as int);
        }
        Some(flat[index])
    }

    /// The address of the link that `pointer` points at.
    pub fn find_link(&self, pointer: &CursorPointer) -> (url: Option<String>)
        ensures
            match link_target(self@, *pointer) {
                Some(address) => url matches Some(found) && found@ == address,
                None => url is None,
            },
    {
        let units = self.sources();
        let n = units.len();
        let mut i: usize = 0;
        while i < n
            invariant
                n == units@.len(),
                i <= n,
                units@ == self@,
                forall|j: int| 0 <= j < i ==> !holds_link(*pointer)(#[trigger] units@[j]),
            decreases n - i,
        {
            if units[i].id == pointer.id {
                match &units[i].data {
                    WidgetSourceData::Line(_, extras) => {
                        if pointer.index < extras.len() {
                            match &extras[pointer.index] {
                                LineExtra::Link(url, _, _) => {
                                    proof {
                                        lemma_first_where_is(units@, holds_link(*pointer), i as int);
                                    }
                                    return Some(url.clone());
                                },
                                _ => {},
                            }
                        }
                    },
                    _ => {},
                }
            }
            i += 1;
        }
        proof {
            lemma_first_where_is(units@, holds_link(*pointer), n as int);
        }
        None
    }

    /// The extra that `pointer` points at: the one at its index in the first
    /// unit with its id that holds an extra there.
    pub fn find_extra_by_cursor(&self, pointer: &CursorPointer) -> (extra: Option<&LineExtra>)
        ensures
            ({
                let at = first_where(self@, holds_extra(*pointer));
                if at < self@.len() {
                    extra == Some(&extras_of(self@[at])[pointer.index as int])
                } else {
                    extra is None
                }
            }),
    {
        let units = self.sources();
        let n = units.len();
        let mut i: usize = 0;
        while i < n
            invariant
                n == units@.len(),
                i <= n,
                units@ == self@,
                forall|j: int| 0 <= j < i ==> !holds_extra(*pointer)(#[trigger] units@[j]),
            decreases n - i,
        {
            if units[i].id == pointer.id {
                match &units[i].data {
                    WidgetSourceData::Line(_, extras) => {
                        if pointer.index < extras.len() {
                            proof {
                                lemma_first_where_is(units@, holds_extra(*pointer), i as int);
                            }
                            return Some(&extras[pointer.index]);
                        }
                    },
                    _ => {},
                }
            }
            i += 1;
        }
        proof {
            lemma_first_where_is(units@, holds_extra(*pointer), n as int);
        }
        None
    }
}

/// Stepping round a cycle of `total` places: reducing the step first gives
/// the same place.
pub proof fn lemma_step_round(at: int, steps: int, total: int)
    requires
        0 <= at < total,
        0 <= steps,
    ensures
        (at + steps) % total == if at >= total - steps % total {
            at - (total - steps % total)
        } else {
            at + steps % total
        },
{
    let step = steps % total;
    vstd::arithmetic::div_mod::lemma_add_mod_noop(at, steps, total);
    vstd::arithmetic::div_mod::lemma_small_mod(at as nat, total as nat);
    assert((at + steps) % total == (at + step) % total);
    if at + step >= total {
        vstd::arithmetic::div_mod::lemma_mod_sub_multiples_vanish(at + step, total);
        vstd::arithmetic::div_mod::lemma_small_mod((at + step - total) as nat, total as nat);
    } else {
        vstd::arithmetic::div_mod::lemma_small_mod((at + step) as nat, total as nat);
    }
}

/// In a list without repetition every pointer is found where it stands.
pub proof fn lemma_found_in_place(flat: Seq<CursorPointer>, at: int)
    requires
        flat.no_duplicates(),
        0 <= at < flat.len(),
    ensures
        first_where(flat, is_pointer(flat[at])) == at,
{
    lemma_first_where_is(flat, is_pointer(flat[at]), at);
}

/// Where a pointer of the list stands.
pub proof fn lemma_place_of(flat: Seq<CursorPointer>, pointer: CursorPointer) -> (at: int)
    requires
        flat.contains(pointer),
    ensures
        0 <= at < flat.len(),
        flat[at] == pointer,
        at == first_where(flat, is_pointer(pointer)),
{
    lemma_first_where(flat, is_pointer(pointer));
    let at = first_where(flat, is_pointer(pointer));
    if at == flat.len() {
        let i = choose|i: int| 0 <= i < flat.len() && flat[i] == pointer;
        assert(!is_pointer(pointer)(flat[i]));
    }
    at
}

/// The pointer reached from `start` by `count` single steps through `flat`.
pub open spec fn stepped(flat: Seq<CursorPointer>, start: CursorPointer, count: nat) -> Option<
    CursorPointer,
>
    decreases count,
{
    if count == 0 {
        Some(start)
    } else {
        match stepped(flat, start, (count - 1) as nat) {
            Some(pointer) => next_cursor(flat, pointer, 1),
            None => None,
        }
    }
}

/// `count` single steps from a match lead to the match `count` places on,
/// round the cycle.
pub proof fn lemma_stepped(flat: Seq<CursorPointer>, start: CursorPointer, count: nat)
    requires
        flat.no_duplicates(),
        flat.contains(start),
    ensures
        stepped(flat, start, count) == Some(
            flat[(first_where(flat, is_pointer(start)) + count) % (flat.len() as int)],
        ),
    decreases count,
{
    let n = flat.len() as int;
    let at = lemma_place_of(flat, start);
    if count == 0 {
        vstd::arithmetic::div_mod::lemma_small_mod(at as nat, n as nat);
    } else {
        lemma_stepped(flat, start, (count - 1) as nat);
        let q = (at + count - 1) % n;
        vstd::arithmetic::div_mod::lemma_mod_bound(at + count - 1, n);
        lemma_found_in_place(flat, q);
        vstd::arithmetic::div_mod::lemma_add_mod_noop(at + count - 1, 1, n);
        vstd::arithmetic::div_mod::lemma_mod_twice(at + count - 1, n);
        vstd::arithmetic::div_mod::lemma_add_mod_noop(q, 1, n);
        assert((q + 1) % n == (at + count) % n);
    }
}

/// Cyclic navigation: in a document whose matches are all different
/// pointers, as many single steps as there are matches, in either
/// direction, lead from any match back to it.
pub proof fn lemma_cycle_returns(
    s: Seq<WidgetSource<'_>>,
    mode: FindMode,
    target: FindTarget,
    start: CursorPointer,
)
    requires
        all_matches(s, target).no_duplicates(),
        all_matches(s, target).contains(start),
    ensures
        stepped(
            ordered_matches(s, mode, target),
            start,
            ordered_matches(s, mode, target).len(),
        ) == Some(start),
{
    let flat = ordered_matches(s, mode, target);
    lemma_ordered_matches(s, mode, target, start);
    let n = flat.len() as int;
    let at = lemma_place_of(flat, start);
    lemma_stepped(flat, start, flat.len());
    vstd::arithmetic::div_mod::lemma_mod_add_multiples_vanish(at, n);
    vstd::arithmetic::div_mod::lemma_small_mod(at as nat, n as nat);
}

/// Walking the matches backwards keeps them different and keeps each of
/// them.
pub proof fn lemma_ordered_matches(
    s: Seq<WidgetSource<'_>>,
    mode: FindMode,
    target: FindTarget,
    pointer: CursorPointer,
)
    requires
        all_matches(s, target).no_duplicates(),
        all_matches(s, target).contains(pointer),
    ensures
        ordered_matches(s, mode, target).no_duplicates(),
        ordered_matches(s, mode, target).contains(pointer),
        ordered_matches(s, mode, target).len() == all_matches(s, target).len(),
{
    let forward = all_matches(s, target);
    let at = lemma_place_of(forward, pointer);
    let back = forward.reverse();
    assert(back[forward.len() - 1 - at] == pointer);
}

/// The step in the opposite direction undoes a step: in a document whose
/// matches are all different pointers, `Prev` after `Next` and `Next` after
/// `Prev` lead back to the match they started from.
pub proof fn lemma_opposite_step_returns(
    s: Seq<WidgetSource<'_>>,
    target: FindTarget,
    start: CursorPointer,
)
    requires
        all_matches(s, target).no_duplicates(),
        all_matches(s, target).contains(start),
    ensures
        next_cursor(ordered_matches(s, FindMode::Next, target), start, 1) matches Some(there)
            && next_cursor(ordered_matches(s, FindMode::Prev, target), there, 1) == Some(start),
        next_cursor(ordered_matches(s, FindMode::Prev, target), start, 1) matches Some(there)
            && next_cursor(ordered_matches(s, FindMode::Next, target), there, 1) == Some(start),
{
    let forward = all_matches(s, target);
    let back = forward.reverse();
    lemma_ordered_matches(s, FindMode::Prev, target, start);
    assert(back.reverse() =~= forward);
    lemma_step_back(forward, start);
    lemma_step_back(back, start);
}

/// One step through a list without repetition, then one step through its
/// reverse, leads back.
pub proof fn lemma_step_back(flat: Seq<CursorPointer>, start: CursorPointer)
    requires
        flat.no_duplicates(),
        flat.contains(start),
    ensures
        next_cursor(flat, start, 1) matches Some(there) && next_cursor(flat.reverse(), there, 1)
            == Some(start),
{
    let n = flat.len() as int;
    let at = lemma_place_of(flat, start);
    let back = flat.reverse();
    let q = (at + 1) % n;
    if at + 1 < n {
        vstd::arithmetic::div_mod::lemma_small_mod((at + 1) as nat, n as nat);
    } else {
        vstd::arithmetic::div_mod::lemma_mod_self_0(n);
    }
    let there = flat[q];
    assert(back[n - 1 - q] == there);
    lemma_found_in_place(back, n - 1 - q);
    if q == 0 {
        vstd::arithmetic::div_mod::lemma_mod_self_0(n);
    } else {
        vstd::arithmetic::div_mod::lemma_small_mod((n - q) as nat, n as nat);
    }
}

} // verus!
