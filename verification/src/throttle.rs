//! The order throttle: so many orders in a window of one second.
use crate::clock::{elapsed_ns, elapsed_spec, now_ns, reading, Clock};
use std::time::SystemTime;
use vstd::prelude::*;

verus! {

/// Length of a window in nanoseconds.
pub const WINDOW_NS: u64 = 1_000_000_000;

/// A window of one second and the tokens left in it.
#[derive(Clone, Copy, Debug, PartialEq, Eq, Structural)]
pub struct TokenBucket {
    pub tokens: u64,
    pub max_per_sec: u64,
    pub window_ns: u64,
}

impl TokenBucket {
    /// No window ever holds more tokens than the limit.
    pub open spec fn wf(self) -> bool {
        self.tokens <= self.max_per_sec
    }

    /// A bucket whose first window starts at `now`.
    pub open spec fn fresh(max_per_sec: u64, now: u64) -> TokenBucket {
        TokenBucket { tokens: max_per_sec, max_per_sec, window_ns: now }
    }

    /// The window has run out at `now`.
    pub open spec fn expired(self, now: u64) -> bool {
        elapsed_spec(self.window_ns, now) >= WINDOW_NS
    }

    /// The bucket with a new window where the old one has run out.
    pub open spec fn rolled(self, now: u64) -> TokenBucket {
        if self.expired(now) {
            TokenBucket::fresh(self.max_per_sec, now)
        } else {
            self
        }
    }

    /// An order at `now` finds a token.
    pub open spec fn grants(self, now: u64) -> bool {
        self.rolled(now).tokens > 0
    }

    /// The bucket after an order at `now`.
    pub open spec fn after(self, now: u64) -> TokenBucket {
        let b = self.rolled(now);
        TokenBucket {
            tokens: if b.tokens > 0 {
                (b.tokens - 1) as u64
            } else {
                0
            },
            ..b
        }
    }

    pub fn new_at(max_per_sec: u64, now: u64) -> (r: TokenBucket)
        ensures
            r == TokenBucket::fresh(max_per_sec, now),
            r.wf(),
    {
        TokenBucket { tokens: max_per_sec, max_per_sec, window_ns: now }
    }

    /// A full bucket whose first window starts now.
    pub fn new(max_per_sec: u64, clock: &mut Clock) -> (r: TokenBucket)
        ensures
            exists|instant: SystemTime|
                final(clock).last == #[trigger] reading(old(clock).last, instant),
            r == TokenBucket::fresh(max_per_sec, final(clock).last),
            r.wf(),
    {
        let now: u64 = now_ns(clock);
        TokenBucket::new_at(max_per_sec, now)
    }

    /// Is an order at `now` allowed? It takes a token if so.
    pub fn allow_at(&mut self, now: u64) -> (r: bool)
        ensures
            r == old(self).grants(now),
            *final(self) == old(self).after(now),
            old(self).wf() ==> final(self).wf(),
    {
        if elapsed_ns(self.window_ns, now) >= WINDOW_NS {
            self.window_ns = now;
            self.tokens = self.max_per_sec;
        }
        if self.tokens == 0 {
            return false;
        }
        self.tokens = self.tokens - 1;
        true
    }

    /// Is an order allowed now? It takes a token if so.
    pub fn allow(&mut self, clock: &mut Clock) -> (r: bool)
        ensures
            exists|instant: SystemTime|
                final(clock).last == #[trigger] reading(old(clock).last, instant),
            r == old(self).grants(final(clock).last),
            *final(self) == old(self).after(final(clock).last),
            old(self).wf() ==> final(self).wf(),
    {
        let now: u64 = now_ns(clock);
        self.allow_at(now)
    }
}

/// The bucket after orders at the given times.
pub open spec fn bucket_after(b: TokenBucket, times: Seq<u64>) -> TokenBucket
    decreases times.len(),
{
    if times.len() == 0 {
        b
    } else {
        bucket_after(b, times.drop_last()).after(times.last())
    }
}

/// How many of the orders at the given times are allowed.
pub open spec fn granted(b: TokenBucket, times: Seq<u64>) -> nat
    decreases times.len(),
{
    if times.len() == 0 {
        0
    } else {
        granted(b, times.drop_last()) + if bucket_after(b, times.drop_last()).grants(times.last()) {
            1nat
        } else {
            0nat
        }
    }
}

/// How many times the orders at the given times start a new window.
pub open spec fn windows_started(b: TokenBucket, times: Seq<u64>) -> nat
    decreases times.len(),
{
    if times.len() == 0 {
        0
    } else {
        windows_started(b, times.drop_last()) + if bucket_after(b, times.drop_last()).expired(
            times.last(),
        ) {
            1nat
        } else {
            0nat
        }
    }
}

/// Within one window exactly the first orders are allowed, one for each token
/// that was left.
pub proof fn law_window_limit(b: TokenBucket, times: Seq<u64>)
    requires
        forall|i: int| 0 <= i < times.len() ==> !b.expired(#[trigger] times[i]),
    ensures
        granted(b, times) == (if times.len() <= b.tokens {
            times.len()
        } else {
            b.tokens as nat
        }),
        bucket_after(b, times).window_ns == b.window_ns,
        bucket_after(b, times).tokens == b.tokens - granted(b, times),
        bucket_after(b, times).max_per_sec == b.max_per_sec,
    decreases times.len(),
{
    if times.len() > 0 {
        let rest = times.drop_last();
        assert forall|i: int| 0 <= i < rest.len() implies !b.expired(#[trigger] rest[i]) by {
            assert(rest[i] == times[i]);
        }
        law_window_limit(b, rest);
        assert(!b.expired(times[times.len() - 1]));
    }
}

/// At any times whatever, each window allows no more orders than the limit.
pub proof fn law_rate_limit(b: TokenBucket, times: Seq<u64>)
    requires
        b.wf(),
    ensures
        granted(b, times) + bucket_after(b, times).tokens <= b.tokens + b.max_per_sec
            * windows_started(b, times),
        bucket_after(b, times).wf(),
        bucket_after(b, times).max_per_sec == b.max_per_sec,
    decreases times.len(),
{
    if times.len() > 0 {
        let rest = times.drop_last();
        law_rate_limit(b, rest);
        let w = windows_started(b, rest);
        assert(b.max_per_sec * (w + 1) == b.max_per_sec * w + b.max_per_sec) by (nonlinear_arith);
    }
}

/// While the clock runs forward, windows start at least a second apart.
pub proof fn law_windows_a_second_apart(b: TokenBucket, times: Seq<u64>)
    requires
        forall|i: int, j: int|
            0 <= i <= j < times.len() ==> #[trigger] times[i] <= #[trigger] times[j],
        times.len() > 0 ==> b.window_ns <= times[0],
    ensures
        b.window_ns + windows_started(b, times) * WINDOW_NS <= bucket_after(b, times).window_ns,
        times.len() > 0 ==> bucket_after(b, times).window_ns <= times.last(),
    decreases times.len(),
{
    if times.len() > 0 {
        let rest = times.drop_last();
        assert forall|i: int, j: int| 0 <= i <= j < rest.len() implies #[trigger] rest[i]
            <= #[trigger] rest[j] by {
            assert(rest[i] == times[i] && rest[j] == times[j]);
        }
        law_windows_a_second_apart(b, rest);
        if rest.len() > 0 {
            assert(rest.last() == times[rest.len() - 1]);
        }
    }
}

} // verus!
