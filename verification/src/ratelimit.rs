//! A request budget over time: at most so many starts in each window. One
//! limiter serves both stages of a sweep, since both ask the same host.

use vstd::prelude::*;

verus! {

/// Admits at most `per_window` requests in each window of `window` ticks.
/// A window opens with the first request that comes after the one before
/// has run out. A limiter that is not limited admits every request.
#[derive(Clone, Copy, Debug, PartialEq, Eq, Structural)]
pub struct RateLimiter {
    pub limited: bool,
    pub per_window: u64,
    pub window: u64,
    /// The tick at which the current window opened.
    pub opened: u64,
    /// How many requests the current window has admitted.
    pub used: u64,
}

/// Why a limiter could not be made.
#[derive(Clone, Copy, Debug, PartialEq, Eq, Structural)]
pub enum RateError {
    /// A window must admit at least one request.
    NoRequests,
    /// A window must last at least one tick.
    NoWindow,
}

/// What a limiter answers to a request.
#[derive(Clone, Copy, Debug, PartialEq, Eq, Structural)]
pub enum Admission {
    /// The request may start now.
    Admitted,
    /// The window is used up: ask again at this tick, not before.
    Refused { until: u64 },
}

/// Whether the current window has run out at a tick. A tick before the
/// window opened belongs to it: a clock that steps back earns nothing.
pub open spec fn window_over(limiter: RateLimiter, now: u64) -> bool {
    now >= limiter.opened && now - limiter.opened >= limiter.window
}

/// The limiter as the request finds it: with a fresh window where the
/// current one has run out.
pub open spec fn rolled(limiter: RateLimiter, now: u64) -> RateLimiter {
    if window_over(limiter, now) {
        RateLimiter { opened: now, used: 0, ..limiter }
    } else {
        limiter
    }
}

/// The tick at which the current window runs out, or the last tick there
/// is.
pub open spec fn window_end(limiter: RateLimiter) -> u64 {
    if limiter.opened + limiter.window > u64::MAX {
        u64::MAX
    } else {
        (limiter.opened + limiter.window) as u64
    }
}

/// What a limiter answers to a request at a tick.
pub open spec fn answer_at(limiter: RateLimiter, now: u64) -> Admission {
    if !limiter.limited || rolled(limiter, now).used < limiter.per_window {
        Admission::Admitted
    } else {
        Admission::Refused { until: window_end(rolled(limiter, now)) }
    }
}

/// The limiter after a request at a tick.
pub open spec fn after_request(limiter: RateLimiter, now: u64) -> RateLimiter {
    if !limiter.limited {
        limiter
    } else if rolled(limiter, now).used < limiter.per_window {
        RateLimiter { used: (rolled(limiter, now).used + 1) as u64, ..rolled(limiter, now) }
    } else {
        rolled(limiter, now)
    }
}

/// How many of the requests at the given ticks, made one after the other,
/// are admitted.
pub open spec fn admitted_count(limiter: RateLimiter, ticks: Seq<u64>) -> nat
    decreases ticks.len(),
{
    if ticks.len() == 0 {
        0
    } else {
        (if answer_at(limiter, ticks[0]) is Admitted {
            1nat
        } else {
            0nat
        }) + admitted_count(after_request(limiter, ticks[0]), ticks.drop_first())
    }
}

impl RateLimiter {
    /// A limited window never holds more than it admits, and has a length.
    pub open spec fn wf(&self) -> bool {
        self.limited ==> self.per_window >= 1 && self.window >= 1 && self.used <= self.per_window
    }

    /// A limiter that admits `per_window` requests in every `window` ticks.
    /// The first window opens at `now`.
    pub fn new(per_window: u64, window: u64, now: u64) -> (r: Result<RateLimiter, RateError>)
        ensures
            r == if per_window == 0 {
                Err::<RateLimiter, RateError>(RateError::NoRequests)
            } else if window == 0 {
                Err::<RateLimiter, RateError>(RateError::NoWindow)
            } else {
                Ok::<RateLimiter, RateError>(
                    RateLimiter { limited: true, per_window, window, opened: now, used: 0 },
                )
            },
            r matches Ok(limiter) ==> limiter.wf(),
    {
        if per_window == 0 {
            Err(RateError::NoRequests)
        } else if window == 0 {
            Err(RateError::NoWindow)
        } else {
            Ok(RateLimiter { limited: true, per_window, window, opened: now, used: 0 })
        }
    }

    /// A limiter that admits every request.
    pub fn unlimited() -> (limiter: RateLimiter)
        ensures
            limiter == (RateLimiter { limited: false, per_window: 0, window: 0, opened: 0, used: 0 }),
            limiter.wf(),
    {
        RateLimiter { limited: false, per_window: 0, window: 0, opened: 0, used: 0 }
    }

    /// Asks for one request at the tick `now`, and books it where it is
    /// admitted.
    pub fn request(&mut self, now: u64) -> (admission: Admission)
        ensures
            old(self).wf() ==> final(self).wf(),
            admission == answer_at(*old(self), now),
            *final(self) == after_request(*old(self), now),
    {
        if !self.limited {
            return Admission::Admitted;
        }
        if now >= self.opened && now - self.opened >= self.window {
            self.opened = now;
            self.used = 0;
        }
        if self.used < self.per_window {
            self.used = self.used + 1;
            Admission::Admitted
        } else {
            let until: u64 = if self.window > u64::MAX - self.opened {
                u64::MAX
            } else {
                self.opened + self.window
            };
            Admission::Refused { until }
        }
    }
}

/// While a window lasts it admits no more than is left of it: of any
/// requests at ticks inside the window, at most `per_window - used` are
/// admitted.
pub proof fn lemma_window_admits_at_most(limiter: RateLimiter, ticks: Seq<u64>)
    requires
        limiter.wf(),
        limiter.limited,
        forall|i: int| 0 <= i < ticks.len() ==> !window_over(limiter, #[trigger] ticks[i]),
    ensures
        admitted_count(limiter, ticks) <= limiter.per_window - limiter.used,
    decreases ticks.len(),
{
    if ticks.len() > 0 {
        let next = after_request(limiter, ticks[0]);
        let rest = ticks.drop_first();
        assert(!window_over(limiter, ticks[0]));
        assert(next.opened == limiter.opened && next.window == limiter.window);
        assert forall|i: int| 0 <= i < rest.len() implies !window_over(next, #[trigger] rest[i]) by {
            assert(rest[i] == ticks[i + 1]);
            assert(!window_over(limiter, ticks[i + 1]));
        }
        lemma_window_admits_at_most(next, rest);
    }
}

/// A limiter that is not limited admits every request.
pub proof fn lemma_unlimited_admits_all(limiter: RateLimiter, ticks: Seq<u64>)
    requires
        !limiter.limited,
    ensures
        admitted_count(limiter, ticks) == ticks.len(),
    decreases ticks.len(),
{
    if ticks.len() > 0 {
        lemma_unlimited_admits_all(after_request(limiter, ticks[0]), ticks.drop_first());
    }
}

} // verus!
