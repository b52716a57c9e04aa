//! The timer behind a client's periodic heartbeat.

use vstd::prelude::*;

verus! {

/// The period of a client's heartbeat, in milliseconds.
pub const HEARTBEAT_PERIOD_MS: u64 = 5000;

/// Decides when a heartbeat is due.
///
/// Times are readings of one monotonic clock, in milliseconds; the caller
/// reads the clock.
#[derive(Clone, Copy, Debug, PartialEq, Eq, Structural)]
pub struct Heartbeat {
    /// The period between two heartbeats.
    pub interval: u64,
    /// When the last heartbeat was sent.
    pub last_sent: u64,
}

impl Heartbeat {
    /// The time that has passed since the last heartbeat, at `now`; zero
    /// when `now` is not later.
    pub open spec fn elapsed(self, now: u64) -> int {
        if now >= self.last_sent {
            now - self.last_sent
        } else {
            0
        }
    }

    /// A heartbeat is due at `now`: a whole period has passed.
    pub open spec fn due(self, now: u64) -> bool {
        self.elapsed(now) >= self.interval
    }

    /// A timer with period `interval` whose last heartbeat was at `now`.
    pub fn new(interval: u64, now: u64) -> (h: Self)
        ensures
            h == (Heartbeat { interval, last_sent: now }),
    {
        Heartbeat { interval, last_sent: now }
    }

    /// Tells whether a heartbeat is due at `now`, and if so takes `now` as
    /// the time of the heartbeat that the caller sends.
    pub fn tick(&mut self, now: u64) -> (fire: bool)
        ensures
            fire == old(self).due(now),
            fire ==> *final(self) == (Heartbeat { last_sent: now, ..*old(self) }),
            !fire ==> *final(self) == *old(self),
    {
        let elapsed: u64 = if now >= self.last_sent {
            now - self.last_sent
        } else {
            0
        };
        if elapsed >= self.interval {
            self.last_sent = now;
            true
        } else {
            false
        }
    }
}

} // verus!
