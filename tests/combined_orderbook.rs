use orderbook_aggregator::combined_orderbook::{CombinedOrderbook, CombinedOrderbookLevel};
use orderbook_aggregator::decimal::Decimal;
use orderbook_aggregator::types::Quote;

fn dec(mantissa: i64) -> Decimal {
    Decimal::new(mantissa, 0)
}

fn quote(price: i64, quantity: i64) -> Quote {
    Quote::new(dec(price), dec(quantity))
}

fn level(exchange: &str, price: i64, quantity: i64) -> CombinedOrderbookLevel {
    CombinedOrderbookLevel::new(exchange.to_string(), quote(price, quantity))
}

#[test]
fn update_best_bid() {
    let mut combined_orderbook = CombinedOrderbook::new(1);
    combined_orderbook.update(("binance".to_string(), vec![quote(90, 100)], vec![]));
    combined_orderbook.update(("bitstamp".to_string(), vec![quote(89, 100)], vec![]));
    combined_orderbook.update(("binance".to_string(), vec![quote(87, 100)], vec![]));
    assert_eq!(
        combined_orderbook.bids(),
        [CombinedOrderbookLevel::new(
            "bitstamp".to_string(),
            Quote::new(dec(89), dec(100))
        )]
    );
    assert!(combined_orderbook.asks().is_empty());
    assert_eq!(combined_orderbook.spread(), None);
}

#[test]
fn update_best_ask() {
    let mut combined_orderbook = CombinedOrderbook::new(1);
    combined_orderbook.update(("binance".to_string(), vec![], vec![quote(90, 100)]));
    combined_orderbook.update(("bitstamp".to_string(), vec![], vec![quote(91, 100)]));
    combined_orderbook.update(("binance".to_string(), vec![], vec![quote(92, 100)]));
    assert_eq!(
        combined_orderbook.asks(),
        [CombinedOrderbookLevel::new(
            "bitstamp".to_string(),
            Quote::new(dec(91), dec(100))
        )]
    );
}

#[test]
fn multiple_quotes_at_price_ordered_by_higest_quantity() {
    let mut combined_orderbook = CombinedOrderbook::new(1);
    combined_orderbook.update(("binance".to_string(), vec![], vec![quote(90, 100)]));
    combined_orderbook.update(("bitstamp".to_string(), vec![], vec![quote(90, 200)]));
    assert_eq!(
        combined_orderbook.asks(),
        [CombinedOrderbookLevel::new(
            "bitstamp".to_string(),
            Quote::new(dec(90), dec(200))
        )]
    );
}

#[test]
fn spread_is_best_ask_less_best_bid() {
    let mut book = CombinedOrderbook::new(2);
    book.update(("binance".to_string(), vec![quote(100, 1)], vec![quote(101, 1)]));
    book.update(("bitstamp".to_string(), vec![quote(99, 5)], vec![quote(102, 5)]));
    assert_eq!(book.bids(), [level("binance", 100, 1), level("bitstamp", 99, 5)]);
    assert_eq!(book.asks(), [level("binance", 101, 1), level("bitstamp", 102, 5)]);
    assert_eq!(book.spread(), Some(dec(1)));
}

#[test]
fn spread_across_scales_is_exact() {
    let mut book = CombinedOrderbook::new(10);
    // 19255.06 against 19255.3
    let bid = Quote::new(Decimal::new(1925506000000, 8), Decimal::new(10000000, 8));
    let ask = Quote::new(Decimal::new(192553, 1), Decimal::new(55000, 8));
    book.update(("binance".to_string(), vec![bid], vec![]));
    book.update(("bitstamp".to_string(), vec![], vec![ask]));
    let spread = book.spread().unwrap();
    assert_eq!(spread.mantissa(), 24000000);
    assert_eq!(spread.scale(), 8);
}

#[test]
fn spread_is_none_while_a_side_is_empty() {
    let mut book = CombinedOrderbook::new(3);
    assert_eq!(book.spread(), None);
    book.update(("binance".to_string(), vec![quote(100, 1)], vec![]));
    assert_eq!(book.spread(), None);
    book.update(("bitstamp".to_string(), vec![], vec![quote(101, 1)]));
    assert_eq!(book.spread(), Some(dec(1)));
    book.update(("binance".to_string(), vec![], vec![]));
    assert_eq!(book.spread(), None);
}

#[test]
fn crossed_book_has_negative_spread() {
    let mut book = CombinedOrderbook::new(3);
    book.update(("binance".to_string(), vec![quote(105, 1)], vec![]));
    book.update(("bitstamp".to_string(), vec![], vec![quote(100, 1)]));
    assert_eq!(book.spread(), Some(dec(-5)));
}

#[test]
fn venue_replacement_keeps_other_venue() {
    let mut book = CombinedOrderbook::new(4);
    book.update(("binance".to_string(), vec![quote(100, 1), quote(99, 1)], vec![]));
    book.update(("bitstamp".to_string(), vec![quote(98, 1)], vec![]));
    book.update(("binance".to_string(), vec![quote(97, 1)], vec![]));
    assert_eq!(book.bids(), [level("bitstamp", 98, 1), level("binance", 97, 1)]);
}

#[test]
fn observers_clamp_to_depth_limit() {
    let mut book = CombinedOrderbook::new(2);
    book.update((
        "binance".to_string(),
        vec![quote(100, 1), quote(99, 1), quote(98, 1)],
        vec![quote(101, 1), quote(102, 1), quote(103, 1)],
    ));
    book.update(("bitstamp".to_string(), vec![quote(97, 1)], vec![quote(104, 1)]));
    assert_eq!(book.bids(), [level("binance", 100, 1), level("binance", 99, 1)]);
    assert_eq!(book.asks(), [level("binance", 101, 1), level("binance", 102, 1)]);
}

#[test]
fn zero_depth_limit_reports_nothing() {
    let mut book = CombinedOrderbook::new(0);
    book.update(("binance".to_string(), vec![quote(100, 1)], vec![quote(101, 1)]));
    assert!(book.bids().is_empty());
    assert!(book.asks().is_empty());
    assert_eq!(book.spread(), Some(dec(1)));
}

#[test]
fn unsorted_snapshot_is_sorted_on_merge() {
    let mut book = CombinedOrderbook::new(10);
    book.update((
        "binance".to_string(),
        vec![quote(98, 1), quote(100, 1), quote(99, 1)],
        vec![quote(103, 1), quote(101, 1), quote(102, 1)],
    ));
    assert_eq!(
        book.bids(),
        [level("binance", 100, 1), level("binance", 99, 1), level("binance", 98, 1)]
    );
    assert_eq!(
        book.asks(),
        [level("binance", 101, 1), level("binance", 102, 1), level("binance", 103, 1)]
    );
}

#[test]
fn ties_go_by_quantity_then_venue() {
    let mut book = CombinedOrderbook::new(10);
    book.update(("bitstamp".to_string(), vec![quote(100, 5)], vec![quote(101, 5)]));
    book.update(("binance".to_string(), vec![quote(100, 5), quote(100, 7)], vec![quote(101, 5)]));
    assert_eq!(
        book.bids(),
        [level("binance", 100, 7), level("binance", 100, 5), level("bitstamp", 100, 5)]
    );
    assert_eq!(book.asks(), [level("binance", 101, 5), level("bitstamp", 101, 5)]);
}

#[test]
fn equal_values_at_other_scales_tie_on_price() {
    let mut book = CombinedOrderbook::new(10);
    // 90.0 with quantity 1 against 90 with quantity 2
    let a = Quote::new(Decimal::new(900, 1), dec(1));
    book.update(("binance".to_string(), vec![], vec![a]));
    book.update(("bitstamp".to_string(), vec![], vec![quote(90, 2)]));
    assert_eq!(
        book.asks(),
        [
            level("bitstamp", 90, 2),
            CombinedOrderbookLevel::new("binance".to_string(), a)
        ]
    );
}

#[test]
fn zero_quantity_levels_are_dropped() {
    let mut book = CombinedOrderbook::new(10);
    book.update((
        "binance".to_string(),
        vec![quote(100, 0), quote(99, 2)],
        vec![quote(101, 0)],
    ));
    assert_eq!(book.bids(), [level("binance", 99, 2)]);
    assert!(book.asks().is_empty());
    assert_eq!(book.spread(), None);
}

#[test]
fn same_update_twice_is_idempotent() {
    let mut once = CombinedOrderbook::new(5);
    let mut twice = CombinedOrderbook::new(5);
    for book in [&mut once, &mut twice] {
        book.update(("bitstamp".to_string(), vec![quote(99, 3)], vec![quote(104, 3)]));
    }
    let update = || ("binance".to_string(), vec![quote(100, 1), quote(98, 2)], vec![quote(103, 1)]);
    once.update(update());
    twice.update(update());
    twice.update(update());
    assert_eq!(once.bids(), twice.bids());
    assert_eq!(once.asks(), twice.asks());
    assert_eq!(once.spread(), twice.spread());
}

#[test]
fn stale_levels_of_venue_leave() {
    let mut book = CombinedOrderbook::new(10);
    book.update(("binance".to_string(), vec![quote(100, 1), quote(99, 1)], vec![quote(101, 1)]));
    book.update(("bitstamp".to_string(), vec![quote(95, 1)], vec![quote(110, 1)]));
    book.update(("binance".to_string(), vec![quote(90, 4)], vec![]));
    assert_eq!(book.bids(), [level("bitstamp", 95, 1), level("binance", 90, 4)]);
    assert_eq!(book.asks(), [level("bitstamp", 110, 1)]);
}
