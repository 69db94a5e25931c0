use crate::types::{OrderbookUpdate, Quote};
use crate::venue::{first_n, lower_of, lowercase, snapshot_update, venue_name, Venue};
use vstd::prelude::*;

verus! {

/// An event as Bitstamp sends it: its payload, its channel and its kind.
#[derive(Debug)]
pub struct BitstampEvent<T> {
    pub data: T,
    pub channel: String,
    pub event: String,
}

/// The payload of an order book event.
#[derive(Debug)]
pub struct BitstampOrderbookEventData {
    pub timestamp: String,
    pub microtimestamp: String,
    pub bids: Vec<Quote>,
    pub asks: Vec<Quote>,
}

impl BitstampOrderbookEventData {
    /// The update this snapshot gives, each side cut to `depth_limit` quotes.
    pub fn into_update(self, depth_limit: usize) -> (r: OrderbookUpdate)
        ensures
            r.0@ == venue_name(Venue::Bitstamp),
            r.1@ == first_n(self.bids@, depth_limit as nat),
            r.2@ == first_n(self.asks@, depth_limit as nat),
    {
        snapshot_update(Venue::Bitstamp, self.bids, self.asks, depth_limit)
    }
}

/// The name of the order book channel of `symbol`:
/// `order_book_{symbol in lower case}`.
pub fn order_book_channel(symbol: &str) -> (r: String)
    ensures
        r@ == "order_book_"@ + lower_of(symbol@),
{
    let lower = lowercase(symbol);
    String::from_str("order_book_").concat(lower.as_str())
}

} // verus!
