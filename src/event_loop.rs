use vstd::prelude::*;

verus! {

/// The input-poll budget of the event loop: each iteration waits for input at
/// most until a full tick has passed since the last tick, and the tick restarts
/// only once it has fully passed. Times are milliseconds of a monotonic clock.
pub struct TickBudget {
    pub last_tick: u64,
    pub tick_rate: u64,
}

impl TickBudget {
    pub fn new(now: u64, tick_rate: u64) -> (r: TickBudget)
        ensures
            r == (TickBudget { last_tick: now, tick_rate }),
    {
        TickBudget { last_tick: now, tick_rate }
    }

    /// Milliseconds since the last tick; zero where the clock reads earlier.
    pub open spec fn spec_elapsed(self, now: u64) -> int {
        if now >= self.last_tick {
            now - self.last_tick
        } else {
            0
        }
    }

    /// How long to wait for input at `now`: what is left of the tick, or
    /// nothing once it has passed.
    pub fn poll_timeout(&self, now: u64) -> (r: u64)
        ensures
            r == if self.spec_elapsed(now) >= self.tick_rate {
                0
            } else {
                self.tick_rate - self.spec_elapsed(now)
            },
    {
        let elapsed: u64 = if now >= self.last_tick {
            now - self.last_tick
        } else {
            0
        };
        if elapsed >= self.tick_rate {
            0
        } else {
            self.tick_rate - elapsed
        }
    }

    /// Ends an iteration at `now`: the tick restarts where it has fully passed.
    pub fn end_iteration(&mut self, now: u64)
        ensures
            final(self).tick_rate == old(self).tick_rate,
            final(self).last_tick == if old(self).spec_elapsed(now) >= old(self).tick_rate {
                now
            } else {
                old(self).last_tick
            },
    {
        let elapsed: u64 = if now >= self.last_tick {
            now - self.last_tick
        } else {
            0
        };
        if elapsed >= self.tick_rate {
            self.last_tick = now;
        }
    }
}

} // verus!
