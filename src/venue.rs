//! What the venue listeners decide: how a session answers each frame it
//! reads, and how a decoded snapshot becomes an update of the combined book.
use crate::types::{OrderbookUpdate, Quote};
use vstd::prelude::*;

verus! {

/// A venue that feeds the combined book.
#[derive(Clone, Copy, Debug, PartialEq, Eq, Structural)]
pub enum Venue {
    Binance,
    Bitstamp,
}

/// The name under which a venue's levels stand in the book.
pub open spec fn venue_name(venue: Venue) -> Seq<char> {
    match venue {
        Venue::Binance => "binance"@,
        Venue::Bitstamp => "bitstamp"@,
    }
}

impl Venue {
    pub fn display_name(&self) -> (r: &'static str)
        ensures
            r@ == venue_name(*self),
    {
        match self {
            Venue::Binance => "binance",
            Venue::Bitstamp => "bitstamp",
        }
    }
}

/// A frame read from a venue's connection.
#[derive(Debug)]
pub enum Frame {
    Text(String),
    Binary(Vec<u8>),
    Ping(Vec<u8>),
    Pong(Vec<u8>),
    Close,
}

/// Where a venue session stands.
#[derive(Clone, Copy, Debug, PartialEq, Eq, Structural)]
pub enum ListenerPhase {
    /// The subscription was sent; its acknowledgement has not come yet.
    AwaitingAck,
    /// Snapshots are coming.
    Streaming,
}

/// Why a session ends.
#[derive(Clone, Copy, Debug, PartialEq, Eq, Structural)]
pub enum ListenerStop {
    BinaryFrame,
    Closed,
}

/// What a session does with the frame it read.
#[derive(Debug)]
pub enum ListenerAction {
    /// Nothing: read the next frame.
    Skip,
    /// Send a pong frame with this payload.
    Pong(Vec<u8>),
    /// Decode this text as a snapshot and pass it on.
    Decode(String),
    /// End the session with an error.
    Stop(ListenerStop),
}

/// The phase and action that follow a frame: the first frame acknowledges the
/// subscription and is dropped; after it a ping is answered with a pong with
/// the same payload, text is decoded as a snapshot, a pong is passed over, and
/// a binary or close frame ends the session.
pub open spec fn frame_step(phase: ListenerPhase, frame: Frame) -> (ListenerPhase, ListenerAction) {
    match phase {
        ListenerPhase::AwaitingAck => (ListenerPhase::Streaming, ListenerAction::Skip),
        ListenerPhase::Streaming => (
            ListenerPhase::Streaming,
            match frame {
                Frame::Text(t) => ListenerAction::Decode(t),
                Frame::Binary(_) => ListenerAction::Stop(ListenerStop::BinaryFrame),
                Frame::Ping(p) => ListenerAction::Pong(p),
                Frame::Pong(_) => ListenerAction::Skip,
                Frame::Close => ListenerAction::Stop(ListenerStop::Closed),
            },
        ),
    }
}

/// Decides what a session does with the frame it read.
pub fn on_frame(phase: ListenerPhase, frame: Frame) -> (r: (ListenerPhase, ListenerAction))
    ensures
        r == frame_step(phase, frame),
{
    match phase {
        ListenerPhase::AwaitingAck => (ListenerPhase::Streaming, ListenerAction::Skip),
        ListenerPhase::Streaming => {
            let action = match frame {
                Frame::Text(t) => ListenerAction::Decode(t),
                Frame::Binary(_) => ListenerAction::Stop(ListenerStop::BinaryFrame),
                Frame::Ping(p) => ListenerAction::Pong(p),
                Frame::Pong(_) => ListenerAction::Skip,
                Frame::Close => ListenerAction::Stop(ListenerStop::Closed),
            };
            (ListenerPhase::Streaming, action)
        },
    }
}

/// The first `limit` items of `s`, or all of them where there are fewer.
pub open spec fn first_n<T>(s: Seq<T>, limit: nat) -> Seq<T> {
    if s.len() <= limit {
        s
    } else {
        s.take(limit as int)
    }
}

/// The update that a decoded snapshot of `venue` gives: each side cut to its
/// first `depth_limit` quotes, in the venue's order.
pub fn snapshot_update(venue: Venue, bids: Vec<Quote>, asks: Vec<Quote>, depth_limit: usize) -> (r:
    OrderbookUpdate)
    ensures
        r.0@ == venue_name(venue),
        r.1@ == first_n(bids@, depth_limit as nat),
        r.2@ == first_n(asks@, depth_limit as nat),
{
    let mut bids = bids;
    let mut asks = asks;
    bids.truncate(depth_limit);
    asks.truncate(depth_limit);
    (String::from_str(venue.display_name()), bids, asks)
}

/// What `str::to_lowercase` gives for these characters.
pub uninterp spec fn lower_of(s: Seq<char>) -> Seq<char>;

/// Relies on `str::to_lowercase`: the result depends on the characters alone.
#[verifier::external_body]
pub(crate) fn lowercase(s: &str) -> (r: String)
    ensures
        r@ == lower_of(s@),
{
    s.to_lowercase()
}

/// The character of a decimal digit.
pub open spec fn digit_char(d: nat) -> char {
    seq!['0', '1', '2', '3', '4', '5', '6', '7', '8', '9'][d as int]
}

/// The decimal digits of `n`, most significant first, without leading zeros.
pub open spec fn decimal_text(n: nat) -> Seq<char>
    decreases n,
{
    if n < 10 {
        seq![digit_char(n)]
    } else {
        decimal_text(n / 10) + seq![digit_char(n % 10)]
    }
}

/// Relies on `ToString for u64`, through its `Display`: the decimal digits of
/// the number, without sign or leading zeros.
#[verifier::external_body]
pub(crate) fn decimal_string(n: u64) -> (r: String)
    ensures
        r@ == decimal_text(n as nat),
{
    n.to_string()
}

} // verus!
