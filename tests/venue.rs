use orderbook_aggregator::binance::{depth_stream_name, BinanceBookDepth};
use orderbook_aggregator::bitstamp::{order_book_channel, BitstampEvent, BitstampOrderbookEventData};
use orderbook_aggregator::decimal::Decimal;
use orderbook_aggregator::types::Quote;
use orderbook_aggregator::venue::{
    on_frame, snapshot_update, Frame, ListenerAction, ListenerPhase, ListenerStop, Venue,
};

fn quote(price: i64, quantity: i64) -> Quote {
    Quote::new(Decimal::new(price, 0), Decimal::new(quantity, 0))
}

#[test]
fn binance_stream_name_is_lower_case() {
    assert_eq!(depth_stream_name("BTCUSDT", 100), "btcusdt@depth20@100ms");
    assert_eq!(depth_stream_name("EthBtc", 1000), "ethbtc@depth20@1000ms");
}

#[test]
fn bitstamp_channel_is_lower_case() {
    assert_eq!(order_book_channel("BTCUSDT"), "order_book_btcusdt");
}

#[test]
fn venue_names() {
    assert_eq!(Venue::Binance.display_name(), "binance");
    assert_eq!(Venue::Bitstamp.display_name(), "bitstamp");
}

#[test]
fn binance_snapshot_is_cut_to_depth() {
    let depth = BinanceBookDepth {
        last_update_id: 25945836327,
        bids: vec![
            Quote::new(Decimal::new(1925506000000, 8), Decimal::new(10000000, 8)),
            quote(19255, 1),
        ],
        asks: vec![Quote::new(Decimal::new(1925530000000, 8), Decimal::new(55000, 8))],
    };
    let (venue, bids, asks) = depth.into_update(1);
    assert_eq!(venue, "binance");
    assert_eq!(
        bids,
        vec![Quote::new(Decimal::new(1925506000000, 8), Decimal::new(10000000, 8))]
    );
    assert_eq!(
        asks,
        vec![Quote::new(Decimal::new(1925530000000, 8), Decimal::new(55000, 8))]
    );
}

#[test]
fn bitstamp_snapshot_keeps_order() {
    let event = BitstampEvent {
        data: BitstampOrderbookEventData {
            timestamp: "1666190126".to_string(),
            microtimestamp: "1666190126442462".to_string(),
            bids: vec![quote(19176, 1), quote(19175, 2), quote(19174, 3)],
            asks: vec![quote(19181, 1)],
        },
        channel: "order_book_btcusdt".to_string(),
        event: "data".to_string(),
    };
    assert_eq!(event.channel, "order_book_btcusdt");
    let (venue, bids, asks) = event.data.into_update(2);
    assert_eq!(venue, "bitstamp");
    assert_eq!(bids, vec![quote(19176, 1), quote(19175, 2)]);
    assert_eq!(asks, vec![quote(19181, 1)]);
}

#[test]
fn snapshot_update_with_large_limit_keeps_all() {
    let (venue, bids, asks) = snapshot_update(Venue::Binance, vec![quote(1, 1)], vec![], 10);
    assert_eq!(venue, "binance");
    assert_eq!(bids, vec![quote(1, 1)]);
    assert!(asks.is_empty());
}

#[test]
fn first_frame_is_the_acknowledgement() {
    let (phase, action) = on_frame(ListenerPhase::AwaitingAck, Frame::Text("{}".to_string()));
    assert_eq!(phase, ListenerPhase::Streaming);
    assert!(matches!(action, ListenerAction::Skip));
}

#[test]
fn ping_is_answered_with_same_payload() {
    let (phase, action) = on_frame(ListenerPhase::Streaming, Frame::Ping(vec![1, 2, 3]));
    assert_eq!(phase, ListenerPhase::Streaming);
    match action {
        ListenerAction::Pong(payload) => assert_eq!(payload, vec![1, 2, 3]),
        other => panic!("unexpected action {:?}", other),
    }
}

#[test]
fn text_is_decoded() {
    let (_, action) = on_frame(ListenerPhase::Streaming, Frame::Text("{\"a\":1}".to_string()));
    match action {
        ListenerAction::Decode(text) => assert_eq!(text, "{\"a\":1}"),
        other => panic!("unexpected action {:?}", other),
    }
}

#[test]
fn binary_and_close_end_the_session() {
    let (_, action) = on_frame(ListenerPhase::Streaming, Frame::Binary(vec![0]));
    assert!(matches!(action, ListenerAction::Stop(ListenerStop::BinaryFrame)));
    let (_, action) = on_frame(ListenerPhase::Streaming, Frame::Close);
    assert!(matches!(action, ListenerAction::Stop(ListenerStop::Closed)));
    let (_, action) = on_frame(ListenerPhase::Streaming, Frame::Pong(vec![]));
    assert!(matches!(action, ListenerAction::Skip));
}

#[test]
fn decimal_parts_out_of_range_are_refused() {
    assert!(Decimal::try_new(1, 29).is_none());
    assert!(Decimal::try_new(1i128 << 96, 0).is_none());
    assert!(Decimal::try_new(-(1i128 << 96), 0).is_none());
    let d = Decimal::try_new((1i128 << 96) - 1, 28).unwrap();
    assert_eq!(d.mantissa(), (1i128 << 96) - 1);
    assert_eq!(d.scale(), 28);
    assert!(d.is_positive());
    assert!(!Decimal::new(0, 3).is_positive());
    assert!(!Decimal::new(-1, 3).is_positive());
}
