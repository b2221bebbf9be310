//! Searching a sequence for the first element with a property.

use vstd::prelude::*;

verus! {

/// The least index at or after `from` whose element satisfies `p`; the
/// length of `s` where there is none.
pub open spec fn first_from<T>(s: Seq<T>, p: spec_fn(T) -> bool, from: int) -> int
    decreases s.len() - from,
{
    if 0 <= from < s.len() {
        if p(s[from]) {
            from
        } else {
            first_from(s, p, from + 1)
        }
    } else {
        s.len() as int
    }
}

/// The least index whose element satisfies `p`; the length of `s` where
/// there is none.
pub open spec fn first_where<T>(s: Seq<T>, p: spec_fn(T) -> bool) -> int {
    first_from(s, p, 0)
}

/// `first_from` returns an index in range whose element satisfies `p`, with
/// none before it from `from` on, or the length.
pub proof fn lemma_first_from<T>(s: Seq<T>, p: spec_fn(T) -> bool, from: int)
    requires
        0 <= from <= s.len(),
    ensures
        from <= first_from(s, p, from) <= s.len(),
        first_from(s, p, from) < s.len() ==> p(s[first_from(s, p, from)]),
        forall|j: int| from <= j < first_from(s, p, from) ==> !p(#[trigger] s[j]),
    decreases s.len() - from,
{
    if from < s.len() && !p(s[from]) {
        lemma_first_from(s, p, from + 1);
    }
}

/// What `first_where` returns: see `lemma_first_from`.
pub proof fn lemma_first_where<T>(s: Seq<T>, p: spec_fn(T) -> bool)
    ensures
        0 <= first_where(s, p) <= s.len(),
        first_where(s, p) < s.len() ==> p(s[first_where(s, p)]),
        forall|j: int| 0 <= j < first_where(s, p) ==> !p(#[trigger] s[j]),
{
    lemma_first_from(s, p, 0);
}

/// An index with no satisfying element in `from..at`, which itself
/// satisfies `p` or is the length, is what `first_from` returns.
pub proof fn lemma_first_from_is<T>(s: Seq<T>, p: spec_fn(T) -> bool, from: int, at: int)
    requires
        0 <= from <= at <= s.len(),
        forall|j: int| from <= j < at ==> !p(#[trigger] s[j]),
        at < s.len() ==> p(s[at]),
    ensures
        first_from(s, p, from) == at,
    decreases at - from,
{
    if from < at {
        assert(!p(s[from]));
        lemma_first_from_is(s, p, from + 1, at);
    }
}

/// The same for `first_where`.
pub proof fn lemma_first_where_is<T>(s: Seq<T>, p: spec_fn(T) -> bool, at: int)
    requires
        0 <= at <= s.len(),
        forall|j: int| 0 <= j < at ==> !p(#[trigger] s[j]),
        at < s.len() ==> p(s[at]),
    ensures
        first_where(s, p) == at,
{
    lemma_first_from_is(s, p, 0, at);
}

/// The least index at or after `from` and below `n` that satisfies `p`;
/// `n` where there is none.
pub open spec fn first_index_from(n: int, p: spec_fn(int) -> bool, from: int) -> int
    decreases n - from,
{
    if 0 <= from < n {
        if p(from) {
            from
        } else {
            first_index_from(n, p, from + 1)
        }
    } else {
        n
    }
}

/// The least index from 0 and below `n` that satisfies `p`; `n` where there
/// is none.
pub open spec fn first_index(n: int, p: spec_fn(int) -> bool) -> int {
    first_index_from(n, p, 0)
}

/// An index with no satisfying index in `from..at`, which itself satisfies
/// `p` or is `n`, is what `first_index_from` returns.
pub proof fn lemma_first_index_from_is(n: int, p: spec_fn(int) -> bool, from: int, at: int)
    requires
        0 <= from <= at <= n,
        forall|j: int| from <= j < at ==> !#[trigger] p(j),
        at < n ==> p(at),
    ensures
        first_index_from(n, p, from) == at,
    decreases at - from,
{
    if from < at {
        assert(!p(from));
        lemma_first_index_from_is(n, p, from + 1, at);
    }
}

/// The same for `first_index`.
pub proof fn lemma_first_index_is(n: int, p: spec_fn(int) -> bool, at: int)
    requires
        0 <= at <= n,
        forall|j: int| 0 <= j < at ==> !#[trigger] p(j),
        at < n ==> p(at),
    ensures
        first_index(n, p) == at,
{
    lemma_first_index_from_is(n, p, 0, at);
}

/// The elements of `v` in reverse order.
pub fn reversed<T>(v: Vec<T>) -> (back: Vec<T>)
    ensures
        back@ == v@.reverse(),
{
    let mut rest = v;
    let ghost all = rest@;
    let mut back: Vec<T> = Vec::new();
    while rest.len() > 0
        invariant
            rest@.len() <= all.len(),
            rest@ == all.subrange(0, rest@.len() as int),
            back@.len() + rest@.len() == all.len(),
            forall|j: int| 0 <= j < back@.len() ==> back@[j] == all[all.len() - 1 - j],
        decreases rest@.len(),
    {
        let ghost k = rest@.len() - 1;
        let last = rest.pop().unwrap();
        back.push(last);
        assert(rest@ =~= all.subrange(0, k));
    }
    assert(back@ =~= all.reverse());
    back
}

} // verus!
