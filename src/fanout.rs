//! What a subscriber's relay decides for each thing it receives from the
//! summary broadcast. The broadcast never waits for a slow subscriber: it
//! overwrites its oldest entries, and the subscriber that fell behind is told
//! how many it missed. The relay then goes on with the newest summaries.
use vstd::prelude::*;

verus! {

/// What a subscriber's relay receives from the broadcast.
#[derive(Debug)]
pub enum RelayEvent<T> {
    /// The next summary.
    Received(T),
    /// The subscriber fell behind and this many of the oldest summaries were
    /// overwritten before it read them.
    Lagged(u64),
    /// The broadcast has ended.
    Closed,
}

/// What the relay does next.
#[derive(Debug)]
pub enum RelayAction<T> {
    /// Hand this summary to the subscriber.
    Forward(T),
    /// Read the next one.
    Skip,
    /// End the subscriber's stream.
    Finish,
}

/// A subscriber relay's state: how many summaries it has missed so far.
#[derive(Clone, Copy, Debug, PartialEq, Eq, Structural)]
pub struct RelayState {
    pub missed: u64,
}

/// The number of missed summaries after `n` more, held at `u64::MAX`.
pub open spec fn add_missed(missed: u64, n: u64) -> u64 {
    if missed as int + n as int > u64::MAX as int {
        u64::MAX
    } else {
        (missed + n) as u64
    }
}

impl RelayState {
    pub fn new() -> (r: Self)
        ensures
            r.missed == 0,
    {
        RelayState { missed: 0 }
    }

    /// Decides what to do with `event`: a summary is forwarded, a lag is
    /// counted and passed over, and the end of the broadcast ends the stream.
    pub fn step<T>(&mut self, event: RelayEvent<T>) -> (r: RelayAction<T>)
        ensures
            match event {
                RelayEvent::Received(s) => r == RelayAction::Forward(s) && final(self).missed
                    == old(self).missed,
                RelayEvent::Lagged(n) => r == RelayAction::<T>::Skip && final(self).missed
                    == add_missed(old(self).missed, n),
                RelayEvent::Closed => r == RelayAction::<T>::Finish && final(self).missed
                    == old(self).missed,
            },
    {
        match event {
            RelayEvent::Received(s) => RelayAction::Forward(s),
            RelayEvent::Lagged(n) => {
                self.missed = if n > u64::MAX - self.missed {
                    u64::MAX
                } else {
                    self.missed + n
                };
                RelayAction::Skip
            },
            RelayEvent::Closed => RelayAction::Finish,
        }
    }
}

} // verus!
