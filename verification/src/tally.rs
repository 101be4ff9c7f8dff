//! How many entries of a sequence satisfy a predicate.

use vstd::prelude::*;

verus! {

/// How many entries of `s` satisfy `p`.
pub open spec fn tally<A>(s: Seq<A>, p: spec_fn(A) -> bool) -> nat
    decreases s.len(),
{
    if s.len() == 0 {
        0
    } else {
        tally(s.drop_last(), p) + if p(s.last()) {
            1nat
        } else {
            0nat
        }
    }
}

/// One more entry adds one if it satisfies `p`.
pub proof fn lemma_tally_take<A>(s: Seq<A>, p: spec_fn(A) -> bool, i: int)
    requires
        0 <= i < s.len(),
    ensures
        tally(s.take(i + 1), p) == tally(s.take(i), p) + if p(s[i]) {
            1nat
        } else {
            0nat
        },
{
    assert(s.take(i + 1).drop_last() =~= s.take(i));
}

/// Entry by entry, `p` on `s` and `q` on `t` agree.
pub proof fn lemma_tally_same<A, B>(
    s: Seq<A>,
    p: spec_fn(A) -> bool,
    t: Seq<B>,
    q: spec_fn(B) -> bool,
)
    requires
        s.len() == t.len(),
        forall|i: int| 0 <= i < s.len() ==> p(#[trigger] s[i]) == q(t[i]),
    ensures
        tally(s, p) == tally(t, q),
    decreases s.len(),
{
    if s.len() > 0 {
        assert forall|i: int| 0 <= i < s.drop_last().len() implies p(#[trigger] s.drop_last()[i])
            == q(t.drop_last()[i]) by {
            assert(p(s[i]) == q(t[i]));
        }
        lemma_tally_same(s.drop_last(), p, t.drop_last(), q);
        assert(p(s[s.len() - 1]) == q(t[t.len() - 1]));
    }
}

/// Replacing one entry changes the tally by what it changes itself.
pub proof fn lemma_tally_update<A>(s: Seq<A>, p: spec_fn(A) -> bool, i: int, x: A)
    requires
        0 <= i < s.len(),
    ensures
        tally(s.update(i, x), p) + (if p(s[i]) { 1nat } else { 0nat }) == tally(s, p) + (if p(x) {
            1nat
        } else {
            0nat
        }),
    decreases s.len(),
{
    let t = s.update(i, x);
    if i == s.len() - 1 {
        assert(t.drop_last() =~= s.drop_last());
    } else {
        assert(t.drop_last() =~= s.drop_last().update(i, x));
        lemma_tally_update(s.drop_last(), p, i, x);
    }
}

/// Two predicates that never hold together tally up to their disjunction.
pub proof fn lemma_tally_split<A>(
    s: Seq<A>,
    p: spec_fn(A) -> bool,
    q: spec_fn(A) -> bool,
    either: spec_fn(A) -> bool,
)
    requires
        forall|i: int|
            0 <= i < s.len() ==> !(p(#[trigger] s[i]) && q(s[i])) && either(s[i]) == (p(s[i])
                || q(s[i])),
    ensures
        tally(s, either) == tally(s, p) + tally(s, q),
    decreases s.len(),
{
    if s.len() > 0 {
        let d = s.drop_last();
        assert forall|i: int| 0 <= i < d.len() implies !(p(#[trigger] d[i]) && q(d[i])) && either(
            d[i],
        ) == (p(d[i]) || q(d[i])) by {
            assert(d[i] == s[i]);
        }
        lemma_tally_split(d, p, q, either);
        assert(s.last() == s[s.len() - 1]);
    }
}

/// Nothing that satisfies `p` tallies to nothing.
pub proof fn lemma_tally_none<A>(s: Seq<A>, p: spec_fn(A) -> bool)
    requires
        forall|i: int| 0 <= i < s.len() ==> !p(#[trigger] s[i]),
    ensures
        tally(s, p) == 0,
    decreases s.len(),
{
    if s.len() > 0 {
        assert forall|i: int| 0 <= i < s.drop_last().len() implies !p(
            #[trigger] s.drop_last()[i],
        ) by {
            assert(!p(s[i]));
        }
        lemma_tally_none(s.drop_last(), p);
        assert(!p(s[s.len() - 1]));
    }
}

/// Something that satisfies `p` tallies to at least one.
pub proof fn lemma_tally_some<A>(s: Seq<A>, p: spec_fn(A) -> bool, i: int)
    requires
        0 <= i < s.len(),
        p(s[i]),
    ensures
        tally(s, p) >= 1,
    decreases s.len(),
{
    if i < s.len() - 1 {
        assert(s.drop_last()[i] == s[i]);
        lemma_tally_some(s.drop_last(), p, i);
    }
}

/// Two predicates that differ on one entry alone have tallies that differ by
/// that entry.
pub proof fn lemma_tally_differs_at<A>(
    s: Seq<A>,
    p: spec_fn(A) -> bool,
    q: spec_fn(A) -> bool,
    i: int,
)
    requires
        0 <= i < s.len(),
        forall|j: int| 0 <= j < s.len() && j != i ==> p(#[trigger] s[j]) == q(s[j]),
    ensures
        tally(s, q) + (if p(s[i]) {
            1nat
        } else {
            0nat
        }) == tally(s, p) + (if q(s[i]) {
            1nat
        } else {
            0nat
        }),
    decreases s.len(),
{
    let short = s.drop_last();
    if i == s.len() - 1 {
        assert forall|j: int| 0 <= j < short.len() implies p(#[trigger] short[j]) == q(short[j]) by {
            assert(short[j] == s[j]);
        }
        lemma_tally_same(short, p, short, q);
    } else {
        assert forall|j: int| 0 <= j < short.len() && j != i implies p(#[trigger] short[j]) == q(
            short[j],
        ) by {
            assert(short[j] == s[j]);
        }
        lemma_tally_differs_at(short, p, q, i);
        assert(short[i] == s[i]);
        assert(p(s[s.len() - 1]) == q(s[s.len() - 1]));
    }
}

/// Leaving out entries that do not satisfy `p` leaves its tally.
pub proof fn lemma_tally_filter<A>(s: Seq<A>, keep: spec_fn(A) -> bool, p: spec_fn(A) -> bool)
    requires
        forall|i: int| 0 <= i < s.len() && p(#[trigger] s[i]) ==> keep(s[i]),
    ensures
        tally(s.filter(keep), p) == tally(s, p),
    decreases s.len(),
{
    reveal(Seq::filter);
    if s.len() > 0 {
        let short = s.drop_last();
        assert forall|i: int| 0 <= i < short.len() && p(#[trigger] short[i]) implies keep(
            short[i],
        ) by {
            assert(short[i] == s[i]);
        }
        lemma_tally_filter(short, keep, p);
        assert(s[s.len() - 1] == s.last());
        if keep(s.last()) {
            assert(s.filter(keep).drop_last() =~= short.filter(keep));
        }
    }
}

} // verus!
