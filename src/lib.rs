//! A combined, depth-limited order book fed by complete snapshots from
//! several venues, with exact decimal prices and quantities.
pub mod binance;
pub mod bitstamp;
pub mod combined_orderbook;
pub mod decimal;
pub mod fanout;
pub mod merge;
pub mod order;
pub mod types;
pub mod venue;
