//! How one side of the combined book takes in a venue's snapshot, stated over
//! sequences of levels, with the facts that the book's contracts rest on.
use crate::order::{
    lemma_precedes_asymmetric, lemma_precedes_transitive, precedes, sorted, BookSide, LevelView,
};
use crate::types::Quote;
use vstd::multiset::Multiset;
use vstd::prelude::*;

verus! {

broadcast use {vstd::multiset::group_multiset_axioms, vstd::seq_lib::group_to_multiset_ensures};

/// `s` with `x` placed just before the first level that `x` is strictly
/// better than, or at the end.
pub open spec fn insert_level(side: BookSide, s: Seq<LevelView>, x: LevelView) -> Seq<LevelView>
    decreases s.len(),
{
    if s.len() == 0 {
        seq![x]
    } else if precedes(side, x, s[0]) {
        seq![x] + s
    } else {
        seq![s[0]] + insert_level(side, s.drop_first(), x)
    }
}

/// `s` with the levels of `xs` placed one after the other, as `insert_level` does.
pub open spec fn insert_all(side: BookSide, s: Seq<LevelView>, xs: Seq<LevelView>) -> Seq<
    LevelView,
>
    decreases xs.len(),
{
    if xs.len() == 0 {
        s
    } else {
        insert_all(side, insert_level(side, s, xs[0]), xs.drop_first())
    }
}

/// The levels of `s` that come from venues other than `venue`, in their order.
pub open spec fn retained(s: Seq<LevelView>, venue: Seq<char>) -> Seq<LevelView>
    decreases s.len(),
{
    if s.len() == 0 {
        s
    } else if s[0].0 != venue {
        seq![s[0]] + retained(s.drop_first(), venue)
    } else {
        retained(s.drop_first(), venue)
    }
}

/// The levels that a snapshot of `venue` with `quotes` brings: one for each
/// quote with a quantity above zero, in the snapshot's order.
pub open spec fn incoming(venue: Seq<char>, quotes: Seq<Quote>) -> Seq<LevelView>
    decreases quotes.len(),
{
    if quotes.len() == 0 {
        Seq::empty()
    } else if quotes[0].quantity.units() > 0 {
        seq![(venue, quotes[0])] + incoming(venue, quotes.drop_first())
    } else {
        incoming(venue, quotes.drop_first())
    }
}

/// One side of the book after a snapshot of `venue` with `quotes`: the
/// venue's earlier levels leave, and its new ones take their places in book
/// order.
pub open spec fn merged(side: BookSide, s: Seq<LevelView>, venue: Seq<char>, quotes: Seq<Quote>) -> Seq<
    LevelView,
> {
    insert_all(side, retained(s, venue), incoming(venue, quotes))
}

/// Every level of `s` has a quantity above zero.
pub open spec fn all_positive(s: Seq<LevelView>) -> bool {
    forall|i: int| 0 <= i < s.len() ==> (#[trigger] s[i]).1.quantity.units() > 0
}

/// No level of `s` is strictly better than `y`.
pub open spec fn none_precedes(side: BookSide, s: Seq<LevelView>, y: LevelView) -> bool {
    forall|k: int| 0 <= k < s.len() ==> !precedes(side, #[trigger] s[k], y)
}

/// Where `x` is strictly better than no level before index `i` and than the
/// level at `i` (if any), `insert_level` puts it at `i`.
pub proof fn lemma_insert_level_at(side: BookSide, s: Seq<LevelView>, x: LevelView, i: int)
    requires
        0 <= i <= s.len(),
        forall|j: int| 0 <= j < i ==> !precedes(side, x, #[trigger] s[j]),
        i < s.len() ==> precedes(side, x, s[i]),
    ensures
        insert_level(side, s, x) == s.insert(i, x),
    decreases i,
{
    if i == 0 {
        assert(insert_level(side, s, x) =~= s.insert(i, x));
    } else {
        let t = s.drop_first();
        assert forall|j: int| 0 <= j < i - 1 implies !precedes(side, x, #[trigger] t[j]) by {
            assert(t[j] == s[j + 1]);
        }
        lemma_insert_level_at(side, t, x, i - 1);
        assert(insert_level(side, s, x) =~= s.insert(i, x));
    }
}

proof fn lemma_sorted_cons(side: BookSide, y: LevelView, t: Seq<LevelView>)
    requires
        sorted(side, t),
        none_precedes(side, t, y),
    ensures
        sorted(side, seq![y] + t),
{
    let r = seq![y] + t;
    assert forall|i: int, j: int| 0 <= i < j < r.len() implies !precedes(
        side,
        #[trigger] r[j],
        #[trigger] r[i],
    ) by {
        assert(r[j] == t[j - 1]);
        if i > 0 {
            assert(r[i] == t[i - 1]);
        }
    }
}

proof fn lemma_sorted_tail(side: BookSide, s: Seq<LevelView>)
    requires
        sorted(side, s),
        s.len() > 0,
    ensures
        sorted(side, s.drop_first()),
        none_precedes(side, s.drop_first(), s[0]),
{
    let t = s.drop_first();
    assert forall|i: int, j: int| 0 <= i < j < t.len() implies !precedes(
        side,
        #[trigger] t[j],
        #[trigger] t[i],
    ) by {
        assert(t[j] == s[j + 1] && t[i] == s[i + 1]);
    }
    assert forall|k: int| 0 <= k < t.len() implies !precedes(side, #[trigger] t[k], s[0]) by {
        assert(t[k] == s[k + 1]);
    }
}

proof fn lemma_insert_level_none_precedes(
    side: BookSide,
    s: Seq<LevelView>,
    x: LevelView,
    y: LevelView,
)
    requires
        none_precedes(side, s, y),
        !precedes(side, x, y),
    ensures
        none_precedes(side, insert_level(side, s, x), y),
    decreases s.len(),
{
    if s.len() > 0 && !precedes(side, x, s[0]) {
        let t = s.drop_first();
        assert forall|k: int| 0 <= k < t.len() implies !precedes(side, #[trigger] t[k], y) by {
            assert(t[k] == s[k + 1]);
        }
        lemma_insert_level_none_precedes(side, t, x, y);
        let r = insert_level(side, s, x);
        assert forall|k: int| 0 <= k < r.len() implies !precedes(side, #[trigger] r[k], y) by {
            if k > 0 {
                assert(r[k] == insert_level(side, t, x)[k - 1]);
            }
        }
    }
}

/// Placing a level keeps a side in book order.
pub proof fn lemma_insert_level_sorted(side: BookSide, s: Seq<LevelView>, x: LevelView)
    requires
        sorted(side, s),
    ensures
        sorted(side, insert_level(side, s, x)),
    decreases s.len(),
{
    if s.len() == 0 {
    } else if precedes(side, x, s[0]) {
        assert forall|k: int| 0 <= k < s.len() implies !precedes(side, #[trigger] s[k], x) by {
            if precedes(side, s[k], x) {
                lemma_precedes_transitive(side, s[k], x, s[0]);
                lemma_precedes_asymmetric(side, s[k], s[0]);
                if k > 0 {
                    assert(!precedes(side, s[k], s[0]));
                }
            }
        }
        lemma_sorted_cons(side, x, s);
    } else {
        let t = s.drop_first();
        lemma_sorted_tail(side, s);
        lemma_insert_level_sorted(side, t, x);
        lemma_insert_level_none_precedes(side, t, x, s[0]);
        lemma_sorted_cons(side, s[0], insert_level(side, t, x));
    }
}

pub proof fn lemma_insert_all_sorted(side: BookSide, s: Seq<LevelView>, xs: Seq<LevelView>)
    requires
        sorted(side, s),
    ensures
        sorted(side, insert_all(side, s, xs)),
    decreases xs.len(),
{
    if xs.len() > 0 {
        lemma_insert_level_sorted(side, s, xs[0]);
        lemma_insert_all_sorted(side, insert_level(side, s, xs[0]), xs.drop_first());
    }
}

proof fn lemma_retained_none_precedes(
    side: BookSide,
    s: Seq<LevelView>,
    venue: Seq<char>,
    y: LevelView,
)
    requires
        none_precedes(side, s, y),
    ensures
        none_precedes(side, retained(s, venue), y),
    decreases s.len(),
{
    if s.len() > 0 {
        let t = s.drop_first();
        assert forall|k: int| 0 <= k < t.len() implies !precedes(side, #[trigger] t[k], y) by {
            assert(t[k] == s[k + 1]);
        }
        lemma_retained_none_precedes(side, t, venue, y);
        let r = retained(s, venue);
        if s[0].0 != venue {
            assert forall|k: int| 0 <= k < r.len() implies !precedes(side, #[trigger] r[k], y) by {
                if k > 0 {
                    assert(r[k] == retained(t, venue)[k - 1]);
                }
            }
        }
    }
}

pub proof fn lemma_retained_sorted(side: BookSide, s: Seq<LevelView>, venue: Seq<char>)
    requires
        sorted(side, s),
    ensures
        sorted(side, retained(s, venue)),
    decreases s.len(),
{
    if s.len() > 0 {
        let t = s.drop_first();
        lemma_sorted_tail(side, s);
        lemma_retained_sorted(side, t, venue);
        if s[0].0 != venue {
            lemma_retained_none_precedes(side, t, venue, s[0]);
            lemma_sorted_cons(side, s[0], retained(t, venue));
        }
    }
}

/// A side in book order stays in book order after a snapshot.
pub proof fn lemma_merged_sorted(
    side: BookSide,
    s: Seq<LevelView>,
    venue: Seq<char>,
    quotes: Seq<Quote>,
)
    requires
        sorted(side, s),
    ensures
        sorted(side, merged(side, s, venue, quotes)),
{
    lemma_retained_sorted(side, s, venue);
    lemma_insert_all_sorted(side, retained(s, venue), incoming(venue, quotes));
}

pub proof fn lemma_insert_level_multiset(side: BookSide, s: Seq<LevelView>, x: LevelView)
    ensures
        insert_level(side, s, x).to_multiset() =~= s.to_multiset().insert(x),
    decreases s.len(),
{
    if s.len() == 0 {
        assert(seq![x] =~= s.insert(0, x));
    } else if precedes(side, x, s[0]) {
        assert(seq![x] + s =~= s.insert(0, x));
    } else {
        let t = s.drop_first();
        lemma_insert_level_multiset(side, t, x);
        let u = insert_level(side, t, x);
        assert(seq![s[0]] + u =~= u.insert(0, s[0]));
        assert(s =~= t.insert(0, s[0]));
    }
}

pub proof fn lemma_insert_all_multiset(side: BookSide, s: Seq<LevelView>, xs: Seq<LevelView>)
    ensures
        insert_all(side, s, xs).to_multiset() =~= s.to_multiset().add(xs.to_multiset()),
    decreases xs.len(),
{
    if xs.len() == 0 {
        assert(xs.to_multiset() =~= Multiset::empty());
    } else {
        lemma_insert_level_multiset(side, s, xs[0]);
        lemma_insert_all_multiset(side, insert_level(side, s, xs[0]), xs.drop_first());
        assert(xs =~= xs.drop_first().insert(0, xs[0]));
    }
}

/// How often a level occurs among the retained levels.
pub proof fn lemma_retained_count(s: Seq<LevelView>, venue: Seq<char>, l: LevelView)
    ensures
        retained(s, venue).to_multiset().count(l) == if l.0 != venue {
            s.to_multiset().count(l)
        } else {
            0
        },
    decreases s.len(),
{
    if s.len() == 0 {
    } else {
        let t = s.drop_first();
        lemma_retained_count(t, venue, l);
        assert(s =~= t.insert(0, s[0]));
        if s[0].0 != venue {
            assert(seq![s[0]] + retained(t, venue) =~= retained(t, venue).insert(0, s[0]));
        }
    }
}

/// Every level a snapshot of `venue` brings belongs to `venue` and has a
/// quantity above zero.
pub proof fn lemma_incoming_levels(venue: Seq<char>, quotes: Seq<Quote>)
    ensures
        all_positive(incoming(venue, quotes)),
        forall|i: int|
            0 <= i < incoming(venue, quotes).len() ==> (#[trigger] incoming(venue, quotes)[i]).0
                == venue,
    decreases quotes.len(),
{
    if quotes.len() > 0 {
        let t = quotes.drop_first();
        lemma_incoming_levels(venue, t);
        let r = incoming(venue, quotes);
        if quotes[0].quantity.units() > 0 {
            assert forall|i: int| 0 < i < r.len() implies #[trigger] r[i] == incoming(
                venue,
                t,
            )[i - 1] by {}
        }
    }
}

/// The contents of a side after a snapshot: the retained levels and the
/// incoming ones.
pub proof fn lemma_merged_multiset(
    side: BookSide,
    s: Seq<LevelView>,
    venue: Seq<char>,
    quotes: Seq<Quote>,
)
    ensures
        merged(side, s, venue, quotes).to_multiset() =~= retained(s, venue).to_multiset().add(
            incoming(venue, quotes).to_multiset(),
        ),
{
    lemma_insert_all_multiset(side, retained(s, venue), incoming(venue, quotes));
}

proof fn lemma_retained_insert_level(
    side: BookSide,
    s: Seq<LevelView>,
    x: LevelView,
    venue: Seq<char>,
)
    requires
        x.0 == venue,
    ensures
        retained(insert_level(side, s, x), venue) == retained(s, venue),
    decreases s.len(),
{
    if s.len() == 0 {
        assert(seq![x].drop_first() =~= s);
    } else if precedes(side, x, s[0]) {
        assert((seq![x] + s).drop_first() =~= s);
    } else {
        let t = s.drop_first();
        lemma_retained_insert_level(side, t, x, venue);
        assert((seq![s[0]] + insert_level(side, t, x)).drop_first() =~= insert_level(side, t, x));
    }
}

proof fn lemma_retained_insert_all(
    side: BookSide,
    s: Seq<LevelView>,
    xs: Seq<LevelView>,
    venue: Seq<char>,
)
    requires
        forall|i: int| 0 <= i < xs.len() ==> (#[trigger] xs[i]).0 == venue,
    ensures
        retained(insert_all(side, s, xs), venue) == retained(s, venue),
    decreases xs.len(),
{
    if xs.len() > 0 {
        lemma_retained_insert_level(side, s, xs[0], venue);
        let t = xs.drop_first();
        assert forall|i: int| 0 <= i < t.len() implies (#[trigger] t[i]).0 == venue by {
            assert(t[i] == xs[i + 1]);
        }
        lemma_retained_insert_all(side, insert_level(side, s, xs[0]), t, venue);
    }
}

proof fn lemma_retained_twice(s: Seq<LevelView>, venue: Seq<char>)
    ensures
        retained(retained(s, venue), venue) == retained(s, venue),
    decreases s.len(),
{
    if s.len() > 0 {
        let t = s.drop_first();
        lemma_retained_twice(t, venue);
        if s[0].0 != venue {
            assert((seq![s[0]] + retained(t, venue)).drop_first() =~= retained(t, venue));
        }
    }
}

/// Taking in the same snapshot twice in a row gives what taking it in once
/// gives.
pub proof fn lemma_merged_twice(
    side: BookSide,
    s: Seq<LevelView>,
    venue: Seq<char>,
    quotes: Seq<Quote>,
)
    ensures
        merged(side, merged(side, s, venue, quotes), venue, quotes) == merged(
            side,
            s,
            venue,
            quotes,
        ),
{
    lemma_incoming_levels(venue, quotes);
    lemma_retained_insert_all(side, retained(s, venue), incoming(venue, quotes), venue);
    lemma_retained_twice(s, venue);
}

proof fn lemma_insert_level_positive(side: BookSide, s: Seq<LevelView>, x: LevelView)
    requires
        all_positive(s),
        x.1.quantity.units() > 0,
    ensures
        all_positive(insert_level(side, s, x)),
{
    lemma_insert_level_multiset(side, s, x);
    let r = insert_level(side, s, x);
    assert forall|i: int| 0 <= i < r.len() implies (#[trigger] r[i]).1.quantity.units() > 0 by {
        assert(r.contains(r[i]));
        assert(r.to_multiset().count(r[i]) > 0);
        if r[i] != x {
            assert(s.to_multiset().count(r[i]) > 0);
            let k = choose|k: int| 0 <= k < s.len() && s[k] == r[i];
        }
    }
}

proof fn lemma_insert_all_positive(side: BookSide, s: Seq<LevelView>, xs: Seq<LevelView>)
    requires
        all_positive(s),
        all_positive(xs),
    ensures
        all_positive(insert_all(side, s, xs)),
    decreases xs.len(),
{
    if xs.len() > 0 {
        lemma_insert_level_positive(side, s, xs[0]);
        let t = xs.drop_first();
        assert forall|i: int| 0 <= i < t.len() implies (#[trigger] t[i]).1.quantity.units() > 0 by {
            assert(t[i] == xs[i + 1]);
        }
        lemma_insert_all_positive(side, insert_level(side, s, xs[0]), t);
    }
}

proof fn lemma_retained_positive(s: Seq<LevelView>, venue: Seq<char>)
    requires
        all_positive(s),
    ensures
        all_positive(retained(s, venue)),
    decreases s.len(),
{
    if s.len() > 0 {
        let t = s.drop_first();
        assert forall|i: int| 0 <= i < t.len() implies (#[trigger] t[i]).1.quantity.units() > 0 by {
            assert(t[i] == s[i + 1]);
        }
        lemma_retained_positive(t, venue);
        let r = retained(s, venue);
        if s[0].0 != venue {
            assert forall|i: int| 0 < i < r.len() implies #[trigger] r[i] == retained(t, venue)[i
                - 1] by {}
        }
    }
}

/// Every level of a side keeps a quantity above zero after a snapshot.
pub proof fn lemma_merged_positive(
    side: BookSide,
    s: Seq<LevelView>,
    venue: Seq<char>,
    quotes: Seq<Quote>,
)
    requires
        all_positive(s),
    ensures
        all_positive(merged(side, s, venue, quotes)),
{
    lemma_retained_positive(s, venue);
    lemma_incoming_levels(venue, quotes);
    lemma_insert_all_positive(side, retained(s, venue), incoming(venue, quotes));
}

} // verus!
