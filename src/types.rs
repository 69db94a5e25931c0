use crate::decimal::Decimal;
use vstd::prelude::*;

verus! {

pub type Price = Decimal;

pub type Quantity = Decimal;

/// A price level offered by one venue: a price and the quantity at it.
#[derive(Clone, Copy, Debug, PartialEq, Eq, Structural)]
pub struct Quote {
    pub price: Price,
    pub quantity: Quantity,
}

impl Quote {
    pub fn new(price: Price, quantity: Quantity) -> (r: Self)
        ensures
            r.price == price,
            r.quantity == quantity,
    {
        Quote { price, quantity }
    }
}

/// A complete snapshot of one venue's book: the venue's name, its bids and
/// its asks, best first as the venue sent them.
pub type OrderbookUpdate = (String, Vec<Quote>, Vec<Quote>);

} // verus!
