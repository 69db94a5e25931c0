use crate::decimal::{checked_difference, difference_of, exact_difference_fits, Decimal};
use crate::merge::{
    all_positive, incoming, insert_all, insert_level, lemma_insert_level_at, lemma_merged_multiset,
    lemma_merged_positive, lemma_merged_sorted, lemma_merged_twice, lemma_retained_count,
    merged, retained,
};
use crate::order::{precedes, quote_precedes, sorted, BookSide, LevelView};
use crate::types::{OrderbookUpdate, Price, Quote};
use vstd::prelude::*;
use vstd::slice::slice_subrange;

verus! {

/// A level of the combined book: a quote and the venue it came from.
#[derive(Debug)]
pub struct CombinedOrderbookLevel {
    pub exchange: String,
    pub quote: Quote,
}

impl View for CombinedOrderbookLevel {
    type V = LevelView;

    open spec fn view(&self) -> LevelView {
        (self.exchange@, self.quote)
    }
}

impl CombinedOrderbookLevel {
    pub fn new(exchange: String, quote: Quote) -> (r: Self)
        ensures
            r@ == (exchange@, quote),
    {
        CombinedOrderbookLevel { exchange, quote }
    }
}

impl PartialEq for CombinedOrderbookLevel {
    fn eq(&self, other: &Self) -> (r: bool) {
        self.exchange == other.exchange && self.quote == other.quote
    }
}

impl vstd::std_specs::cmp::PartialEqSpecImpl for CombinedOrderbookLevel {
    open spec fn obeys_eq_spec() -> bool {
        true
    }

    open spec fn eq_spec(&self, other: &Self) -> bool {
        self@ == other@
    }
}

/// The views of a sequence of levels.
pub open spec fn levels_view(s: Seq<CombinedOrderbookLevel>) -> Seq<LevelView> {
    s.map_values(|l: CombinedOrderbookLevel| l@)
}

/// The spread of a book with these sides: what is subtracted is the best bid
/// from the best ask, and there is none while a side is empty.
pub open spec fn spread_of(bids: Seq<LevelView>, asks: Seq<LevelView>) -> Option<Decimal> {
    if bids.len() == 0 || asks.len() == 0 {
        None
    } else {
        difference_of(asks[0].1.price, bids[0].1.price)
    }
}

/// Where the difference of the best ask and the best bid is computed without
/// rounding, the spread is that exact difference.
pub open spec fn spread_exact(bids: Seq<LevelView>, asks: Seq<LevelView>, spread: Option<Decimal>) -> bool {
    bids.len() > 0 && asks.len() > 0 && exact_difference_fits(asks[0].1.price, bids[0].1.price)
        ==> spread is Some && spread->0.units() == asks[0].1.price.units() - bids[0].1.price.units()
}

/// The book that merges the latest snapshot of each venue: bids best first,
/// asks best first, and the spread between the best of each.
pub struct CombinedOrderbook {
    bids: Vec<CombinedOrderbookLevel>,
    asks: Vec<CombinedOrderbookLevel>,
    spread: Option<Price>,
    orderbook_depth_limit: usize,
}

/// `after` is `before` once a snapshot of `venue` with `bids` and `asks` is
/// taken in.
pub open spec fn updated(
    before: CombinedOrderbook,
    after: CombinedOrderbook,
    venue: Seq<char>,
    bids: Seq<Quote>,
    asks: Seq<Quote>,
) -> bool {
    &&& after.bids_view() == merged(BookSide::Bid, before.bids_view(), venue, bids)
    &&& after.asks_view() == merged(BookSide::Ask, before.asks_view(), venue, asks)
    &&& after.spread_view() == spread_of(after.bids_view(), after.asks_view())
    &&& after.depth_limit() == before.depth_limit()
}

impl CombinedOrderbook {
    /// All bids held, best first.
    pub closed spec fn bids_view(self) -> Seq<LevelView> {
        levels_view(self.bids@)
    }

    /// All asks held, best first.
    pub closed spec fn asks_view(self) -> Seq<LevelView> {
        levels_view(self.asks@)
    }

    pub closed spec fn spread_view(self) -> Option<Decimal> {
        self.spread
    }

    /// How many levels of each side the observers report.
    pub closed spec fn depth_limit(self) -> nat {
        self.orderbook_depth_limit as nat
    }

    #[verifier::type_invariant]
    spec fn inv(self) -> bool {
        self.wf()
    }

    /// Each side is in book order with quantities above zero, and the spread
    /// is that of the best levels. Every book is so.
    pub open spec fn wf(self) -> bool {
        &&& sorted(BookSide::Bid, self.bids_view())
        &&& sorted(BookSide::Ask, self.asks_view())
        &&& all_positive(self.bids_view())
        &&& all_positive(self.asks_view())
        &&& self.spread_view() == spread_of(self.bids_view(), self.asks_view())
        &&& spread_exact(self.bids_view(), self.asks_view(), self.spread_view())
    }

    pub fn new(orderbook_depth_limit: usize) -> (r: Self)
        ensures
            r.wf(),
            r.bids_view() == Seq::<LevelView>::empty(),
            r.asks_view() == Seq::<LevelView>::empty(),
            r.spread_view() is None,
            r.depth_limit() == orderbook_depth_limit,
    {
        let r = CombinedOrderbook {
            bids: Vec::new(),
            asks: Vec::new(),
            spread: None,
            orderbook_depth_limit,
        };
        assert(r.bids_view() =~= Seq::<LevelView>::empty());
        assert(r.asks_view() =~= Seq::<LevelView>::empty());
        r
    }

    /// The best bids, at most `depth_limit` of them.
    pub fn bids(&self) -> (r: &[CombinedOrderbookLevel])
        ensures
            levels_view(r@) == self.bids_view().take(
                if self.bids_view().len() < self.depth_limit() {
                    self.bids_view().len() as int
                } else {
                    self.depth_limit() as int
                },
            ),
            r@.len() <= self.depth_limit(),
    {
        top_levels(&self.bids, self.orderbook_depth_limit)
    }

    /// The best asks, at most `depth_limit` of them.
    pub fn asks(&self) -> (r: &[CombinedOrderbookLevel])
        ensures
            levels_view(r@) == self.asks_view().take(
                if self.asks_view().len() < self.depth_limit() {
                    self.asks_view().len() as int
                } else {
                    self.depth_limit() as int
                },
            ),
            r@.len() <= self.depth_limit(),
    {
        top_levels(&self.asks, self.orderbook_depth_limit)
    }

    /// Takes in a complete snapshot of one venue: the venue's earlier levels
    /// leave both sides, its new levels with a quantity above zero join them
    /// in book order, and the spread is computed again.
    pub fn update(&mut self, orderbook_update: OrderbookUpdate)
        ensures
            final(self).wf(),
            updated(
                *old(self),
                *final(self),
                orderbook_update.0@,
                orderbook_update.1@,
                orderbook_update.2@,
            ),
    {
        proof {
            use_type_invariant(&*self);
        }
        let (exchange, bids, asks) = orderbook_update;
        proof {
            lemma_merged_sorted(BookSide::Bid, self.bids_view(), exchange@, bids@);
            lemma_merged_sorted(BookSide::Ask, self.asks_view(), exchange@, asks@);
            lemma_merged_positive(BookSide::Bid, self.bids_view(), exchange@, bids@);
            lemma_merged_positive(BookSide::Ask, self.asks_view(), exchange@, asks@);
        }
        let bids = update_side(&self.bids, BookSide::Bid, &exchange, bids);
        let asks = update_side(&self.asks, BookSide::Ask, &exchange, asks);
        let spread = compute_spread(&bids, &asks);
        *self = CombinedOrderbook {
            bids,
            asks,
            spread,
            orderbook_depth_limit: self.orderbook_depth_limit,
        };
    }

    /// The best ask price less the best bid price, while both sides hold a level.
    pub fn spread(&self) -> (r: Option<Price>)
        ensures
            r == self.spread_view(),
    {
        self.spread
    }
}

/// The spread between the best levels of two sides: the best ask price less
/// the best bid price, while both sides hold a level.
fn compute_spread(bids: &Vec<CombinedOrderbookLevel>, asks: &Vec<CombinedOrderbookLevel>) -> (r:
    Option<Price>)
    ensures
        r == spread_of(levels_view(bids@), levels_view(asks@)),
        spread_exact(levels_view(bids@), levels_view(asks@), r),
{
    if bids.len() == 0 || asks.len() == 0 {
        None
    } else {
        checked_difference(&asks[0].quote.price, &bids[0].quote.price)
    }
}

/// The first `limit` levels of `levels`, or all of them where there are fewer.
fn top_levels(levels: &Vec<CombinedOrderbookLevel>, limit: usize) -> (r: &[CombinedOrderbookLevel])
    ensures
        levels_view(r@) == levels_view(levels@).take(
            if levels@.len() < limit {
                levels@.len() as int
            } else {
                limit as int
            },
        ),
        r@.len() <= limit,
{
    let n = if levels.len() < limit {
        levels.len()
    } else {
        limit
    };
    let r = slice_subrange(levels.as_slice(), 0, n);
    assert(levels_view(r@) =~= levels_view(levels@).take(n as int));
    r
}

/// One side with the levels of `exchange` replaced by those of `quotes` with
/// a quantity above zero, each placed in book order.
fn update_side(
    levels: &Vec<CombinedOrderbookLevel>,
    side: BookSide,
    exchange: &String,
    quotes: Vec<Quote>,
) -> (r: Vec<CombinedOrderbookLevel>)
    ensures
        levels_view(r@) == merged(side, levels_view(levels@), exchange@, quotes@),
{
    let ghost before = levels_view(levels@);
    let mut kept: Vec<CombinedOrderbookLevel> = Vec::new();
    let mut i: usize = 0;
    proof {
        assert(before.skip(0) =~= before);
    }
    while i < levels.len()
        invariant
            0 <= i <= levels@.len(),
            before == levels_view(levels@),
            retained(before, exchange@) == levels_view(kept@) + retained(
                before.skip(i as int),
                exchange@,
            ),
        decreases levels@.len() - i,
    {
        let ghost rest = before.skip(i as int);
        proof {
            assert(rest.drop_first() =~= before.skip(i + 1));
            assert(rest[0] == levels@[i as int]@);
        }
        if levels[i].exchange != *exchange {
            let level = CombinedOrderbookLevel {
                exchange: levels[i].exchange.clone(),
                quote: levels[i].quote,
            };
            let ghost prev = levels_view(kept@);
            kept.push(level);
            proof {
                assert(levels_view(kept@) =~= prev.push(rest[0]));
                assert(levels_view(kept@) + retained(before.skip(i + 1), exchange@) =~= prev
                    + retained(rest, exchange@));
            }
        }
        i = i + 1;
    }
    proof {
        assert(retained(before.skip(i as int), exchange@) =~= Seq::<LevelView>::empty());
        assert(levels_view(kept@) =~= retained(before, exchange@));
    }
    let mut j: usize = 0;
    let ghost target = merged(side, before, exchange@, quotes@);
    proof {
        assert(quotes@.skip(0) =~= quotes@);
    }
    while j < quotes.len()
        invariant
            0 <= j <= quotes@.len(),
            target == insert_all(side, levels_view(kept@), incoming(exchange@, quotes@.skip(j as int))),
        decreases quotes@.len() - j,
    {
        let quote = quotes[j];
        let ghost rest = quotes@.skip(j as int);
        proof {
            assert(rest.drop_first() =~= quotes@.skip(j + 1));
        }
        if quote.quantity.is_positive() {
            let level = CombinedOrderbookLevel { exchange: exchange.clone(), quote };
            proof {
                let inc = incoming(exchange@, rest);
                assert(inc == seq![level@] + incoming(exchange@, rest.drop_first()));
                assert(inc[0] == level@);
                assert(inc.drop_first() =~= incoming(exchange@, rest.drop_first()));
            }
            insert_sorted(&mut kept, side, level);
        }
        j = j + 1;
    }
    kept
}

/// Places `level` just before the first level it is strictly better than.
fn insert_sorted(levels: &mut Vec<CombinedOrderbookLevel>, side: BookSide, level: CombinedOrderbookLevel)
    ensures
        levels_view(final(levels)@) == insert_level(side, levels_view(old(levels)@), level@),
{
    let ghost s = levels_view(levels@);
    let mut i: usize = 0;
    while i < levels.len() && !quote_precedes(
        side,
        level.exchange.as_str(),
        &level.quote,
        levels[i].exchange.as_str(),
        &levels[i].quote,
    )
        invariant
            0 <= i <= levels@.len(),
            s == levels_view(levels@),
            forall|j: int| 0 <= j < i ==> !precedes(side, level@, #[trigger] s[j]),
        decreases levels@.len() - i,
    {
        i = i + 1;
    }
    proof {
        lemma_insert_level_at(side, s, level@, i as int);
    }
    let ghost v = level@;
    levels.insert(i, level);
    assert(levels_view(levels@) =~= s.insert(i as int, v));
}

/// Taking in a snapshot of `venue` leaves on each side no level of `venue`
/// but those the snapshot brought: each level of `venue` occurs as often as
/// among the snapshot's quotes with a quantity above zero.
pub proof fn lemma_stale_levels_leave(
    before: CombinedOrderbook,
    after: CombinedOrderbook,
    venue: Seq<char>,
    bids: Seq<Quote>,
    asks: Seq<Quote>,
    l: LevelView,
)
    requires
        updated(before, after, venue, bids, asks),
        l.0 == venue,
    ensures
        after.bids_view().to_multiset().count(l) == incoming(venue, bids).to_multiset().count(l),
        after.asks_view().to_multiset().count(l) == incoming(venue, asks).to_multiset().count(l),
{
    broadcast use vstd::multiset::group_multiset_axioms;

    lemma_merged_multiset(BookSide::Bid, before.bids_view(), venue, bids);
    lemma_merged_multiset(BookSide::Ask, before.asks_view(), venue, asks);
    lemma_retained_count(before.bids_view(), venue, l);
    lemma_retained_count(before.asks_view(), venue, l);
}

/// A snapshot of one venue removes no level of another venue: each such level
/// occurs on each side as often as before.
pub proof fn lemma_other_venues_kept(
    before: CombinedOrderbook,
    after: CombinedOrderbook,
    venue: Seq<char>,
    bids: Seq<Quote>,
    asks: Seq<Quote>,
    l: LevelView,
)
    requires
        updated(before, after, venue, bids, asks),
        l.0 != venue,
    ensures
        after.bids_view().to_multiset().count(l) == before.bids_view().to_multiset().count(l),
        after.asks_view().to_multiset().count(l) == before.asks_view().to_multiset().count(l),
{
    broadcast use vstd::multiset::group_multiset_axioms;

    lemma_merged_multiset(BookSide::Bid, before.bids_view(), venue, bids);
    lemma_merged_multiset(BookSide::Ask, before.asks_view(), venue, asks);
    lemma_retained_count(before.bids_view(), venue, l);
    lemma_retained_count(before.asks_view(), venue, l);
    crate::merge::lemma_incoming_levels(venue, bids);
    crate::merge::lemma_incoming_levels(venue, asks);
    vstd::seq_lib::to_multiset_contains(incoming(venue, bids), l);
    vstd::seq_lib::to_multiset_contains(incoming(venue, asks), l);
}

/// After a snapshot, bids are ordered by price descending and asks by price
/// ascending, ties going by quantity descending and then by venue ascending.
pub proof fn lemma_sides_sorted(
    before: CombinedOrderbook,
    after: CombinedOrderbook,
    venue: Seq<char>,
    bids: Seq<Quote>,
    asks: Seq<Quote>,
)
    requires
        before.wf(),
        updated(before, after, venue, bids, asks),
    ensures
        sorted(BookSide::Bid, after.bids_view()),
        sorted(BookSide::Ask, after.asks_view()),
{
    lemma_merged_sorted(BookSide::Bid, before.bids_view(), venue, bids);
    lemma_merged_sorted(BookSide::Ask, before.asks_view(), venue, asks);
}

/// Taking in the same snapshot twice in a row leaves the book as taking it
/// in once does.
pub proof fn lemma_update_idempotent(
    b0: CombinedOrderbook,
    b1: CombinedOrderbook,
    b2: CombinedOrderbook,
    venue: Seq<char>,
    bids: Seq<Quote>,
    asks: Seq<Quote>,
)
    requires
        updated(b0, b1, venue, bids, asks),
        updated(b1, b2, venue, bids, asks),
    ensures
        b2.bids_view() == b1.bids_view(),
        b2.asks_view() == b1.asks_view(),
        b2.spread_view() == b1.spread_view(),
        b2.depth_limit() == b1.depth_limit(),
{
    lemma_merged_twice(BookSide::Bid, b0.bids_view(), venue, bids);
    lemma_merged_twice(BookSide::Ask, b0.asks_view(), venue, asks);
}

/// The spread is none while a side is empty; otherwise it is the best ask
/// price less the best bid price, exactly where that difference is computed
/// without rounding.
pub proof fn lemma_spread_law(book: CombinedOrderbook)
    requires
        book.wf(),
    ensures
        book.bids_view().len() == 0 || book.asks_view().len() == 0 ==> book.spread_view() is None,
        book.bids_view().len() > 0 && book.asks_view().len() > 0 ==> book.spread_view()
            == difference_of(book.asks_view()[0].1.price, book.bids_view()[0].1.price),
        book.bids_view().len() > 0 && book.asks_view().len() > 0 && exact_difference_fits(
            book.asks_view()[0].1.price,
            book.bids_view()[0].1.price,
        ) ==> book.spread_view() is Some && book.spread_view()->0.units()
            == book.asks_view()[0].1.price.units() - book.bids_view()[0].1.price.units(),
{
}

} // verus!
