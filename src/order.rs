use crate::decimal::compare_values;
use crate::types::Quote;
use std::cmp::Ordering;
use vstd::prelude::*;

verus! {

/// A level as the contracts see it: the name of its venue and its quote.
pub type LevelView = (Seq<char>, Quote);

/// The side of the book a level stands on.
#[derive(Clone, Copy, Debug, PartialEq, Eq, Structural)]
pub enum BookSide {
    Bid,
    Ask,
}

/// Whether `a` comes strictly before `b` in the lexicographic order of their
/// characters.
pub open spec fn chars_before(a: Seq<char>, b: Seq<char>) -> bool
    decreases a.len(),
{
    if a.len() == 0 {
        b.len() > 0
    } else if b.len() == 0 {
        false
    } else if a[0] != b[0] {
        (a[0] as u32) < (b[0] as u32)
    } else {
        chars_before(a.drop_first(), b.drop_first())
    }
}

/// Whether level `a` is strictly better than level `b` on `side`. Bids go by
/// price descending, asks by price ascending; on both sides ties go by
/// quantity descending, then by venue name ascending.
pub open spec fn precedes(side: BookSide, a: LevelView, b: LevelView) -> bool {
    let pa = a.1.price.units();
    let pb = b.1.price.units();
    let qa = a.1.quantity.units();
    let qb = b.1.quantity.units();
    if pa != pb {
        match side {
            BookSide::Bid => pa > pb,
            BookSide::Ask => pa < pb,
        }
    } else if qa != qb {
        qa > qb
    } else {
        chars_before(a.0, b.0)
    }
}

/// `s` is in the book order of `side`: no level is strictly better than a
/// level before it.
pub open spec fn sorted(side: BookSide, s: Seq<LevelView>) -> bool {
    forall|i: int, j: int| 0 <= i < j < s.len() ==> !precedes(side, #[trigger] s[j], #[trigger] s[i])
}

pub proof fn lemma_chars_before_asymmetric(a: Seq<char>, b: Seq<char>)
    ensures
        !(chars_before(a, b) && chars_before(b, a)),
    decreases a.len(),
{
    if a.len() > 0 && b.len() > 0 && a[0] == b[0] {
        lemma_chars_before_asymmetric(a.drop_first(), b.drop_first());
    }
}

pub proof fn lemma_chars_before_transitive(a: Seq<char>, b: Seq<char>, c: Seq<char>)
    requires
        chars_before(a, b),
        chars_before(b, c),
    ensures
        chars_before(a, c),
    decreases a.len(),
{
    if a.len() > 0 && a[0] == b[0] && b[0] == c[0] {
        lemma_chars_before_transitive(a.drop_first(), b.drop_first(), c.drop_first());
    }
}

/// No level is strictly better than a level that is strictly better than it.
pub proof fn lemma_precedes_asymmetric(side: BookSide, a: LevelView, b: LevelView)
    ensures
        !(precedes(side, a, b) && precedes(side, b, a)),
{
    lemma_chars_before_asymmetric(a.0, b.0);
}

/// Being strictly better is transitive.
pub proof fn lemma_precedes_transitive(side: BookSide, a: LevelView, b: LevelView, c: LevelView)
    requires
        precedes(side, a, b),
        precedes(side, b, c),
    ensures
        precedes(side, a, c),
{
    let (pa, pb, pc) = (a.1.price.units(), b.1.price.units(), c.1.price.units());
    let (qa, qb, qc) = (a.1.quantity.units(), b.1.quantity.units(), c.1.quantity.units());
    if pa == pb && pb == pc && qa == qb && qb == qc {
        lemma_chars_before_transitive(a.0, b.0, c.0);
    }
}

/// Whether the characters of `a` come strictly before those of `b`.
pub fn str_before(a: &str, b: &str) -> (r: bool)
    ensures
        r == chars_before(a@, b@),
{
    let la = a.unicode_len();
    let lb = b.unicode_len();
    let mut i: usize = 0;
    proof {
        assert(a@.skip(0) =~= a@);
        assert(b@.skip(0) =~= b@);
    }
    while i < la && i < lb
        invariant
            i <= la,
            i <= lb,
            la == a@.len(),
            lb == b@.len(),
            chars_before(a@, b@) == chars_before(a@.skip(i as int), b@.skip(i as int)),
        decreases la - i,
    {
        let ca = a.get_char(i);
        let cb = b.get_char(i);
        if ca != cb {
            return (ca as u32) < (cb as u32);
        }
        proof {
            assert(a@.skip(i as int).drop_first() =~= a@.skip(i + 1));
            assert(b@.skip(i as int).drop_first() =~= b@.skip(i + 1));
        }
        i = i + 1;
    }
    i >= la && i < lb
}

/// Whether level `(a_venue, a)` is strictly better than `(b_venue, b)` on `side`.
pub fn quote_precedes(side: BookSide, a_venue: &str, a: &Quote, b_venue: &str, b: &Quote) -> (r:
    bool)
    ensures
        r == precedes(side, (a_venue@, *a), (b_venue@, *b)),
{
    match compare_values(&a.price, &b.price) {
        Ordering::Less => side == BookSide::Ask,
        Ordering::Greater => side == BookSide::Bid,
        Ordering::Equal => match compare_values(&a.quantity, &b.quantity) {
            Ordering::Less => false,
            Ordering::Greater => true,
            Ordering::Equal => str_before(a_venue, b_venue),
        },
    }
}

} // verus!
