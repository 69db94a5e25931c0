use crate::types::{OrderbookUpdate, Quote};
use crate::venue::{
    decimal_string, decimal_text, first_n, lower_of, lowercase, snapshot_update, venue_name, Venue,
};
use vstd::prelude::*;

verus! {

/// A depth snapshot as Binance sends it.
#[derive(Debug)]
pub struct BinanceBookDepth {
    pub last_update_id: u64,
    pub bids: Vec<Quote>,
    pub asks: Vec<Quote>,
}

impl BinanceBookDepth {
    /// The update this snapshot gives, each side cut to `depth_limit` quotes.
    pub fn into_update(self, depth_limit: usize) -> (r: OrderbookUpdate)
        ensures
            r.0@ == venue_name(Venue::Binance),
            r.1@ == first_n(self.bids@, depth_limit as nat),
            r.2@ == first_n(self.asks@, depth_limit as nat),
    {
        snapshot_update(Venue::Binance, self.bids, self.asks, depth_limit)
    }
}

/// The name of the depth stream of `symbol`, sent every `update_interval`
/// milliseconds: `{symbol in lower case}@depth20@{update_interval}ms`.
pub fn depth_stream_name(symbol: &str, update_interval: u64) -> (r: String)
    ensures
        r@ == lower_of(symbol@) + "@depth20@"@ + decimal_text(update_interval as nat) + "ms"@,
{
    let name = lowercase(symbol).concat("@depth20@");
    let interval = decimal_string(update_interval);
    name.concat(interval.as_str()).concat("ms")
}

} // verus!
