//! The wall clock, read so that it never goes back.
use std::time::{Duration, SystemTime, SystemTimeError};
use vstd::prelude::*;

verus! {

/// `std::time::SystemTime`, an instant of the wall clock.
#[verifier::external_type_specification]
#[verifier::external_body]
pub struct ExSystemTime(SystemTime);

/// `std::time::SystemTimeError`, which an instant before the epoch gives.
#[verifier::external_type_specification]
#[verifier::external_body]
pub struct ExSystemTimeError(SystemTimeError);

/// How many whole nanoseconds a span holds.
pub uninterp spec fn span_nanos(span: Duration) -> u128;

/// How many nanoseconds after the Unix epoch an instant lies; none before it.
pub uninterp spec fn epoch_nanos(instant: SystemTime) -> Option<u128>;

/// `SystemTime::now`: some instant; which one rests on the clock.
pub assume_specification[ SystemTime::now ]() -> (r: SystemTime)
;

/// `Duration::as_nanos`: the span's whole nanoseconds.
pub assume_specification[ Duration::as_nanos ](span: &Duration) -> (r: u128)
    ensures
        r == span_nanos(*span),
;

/// `SystemTime::duration_since` with `UNIX_EPOCH`: the span from the epoch to
/// the instant, or an error for an instant before the epoch.
#[verifier::external_body]
fn since_epoch(instant: SystemTime) -> (r: Result<Duration, SystemTimeError>)
    ensures
        match r {
            Ok(span) => epoch_nanos(instant) == Some(span_nanos(span)),
            Err(_) => epoch_nanos(instant) is None,
        },
{
    instant.duration_since(std::time::UNIX_EPOCH)
}

/// A count of nanoseconds since the epoch in 64 bits: the low bits of the count,
/// zero for an instant before the epoch.
pub open spec fn clock_ns(nanos: Option<u128>) -> u64 {
    match nanos {
        Some(n) => (n % 0x1_0000_0000_0000_0000) as u64,
        None => 0,
    }
}

/// Reduces a count of nanoseconds to 64 bits.
pub fn reduce_nanos(nanos: Option<u128>) -> (r: u64)
    ensures
        r == clock_ns(nanos),
{
    match nanos {
        Some(n) => (n % 0x1_0000_0000_0000_0000) as u64,
        None => 0,
    }
}

/// The later of the last reading and a new one.
pub open spec fn later(last: u64, ns: u64) -> u64 {
    if ns < last {
        last
    } else {
        ns
    }
}

/// What a clock whose last reading was `last` shows at an instant.
pub open spec fn reading(last: u64, instant: SystemTime) -> u64 {
    later(last, clock_ns(epoch_nanos(instant)))
}

/// A clock that never goes back: where the system's clock was set back, it stands
/// still until that has caught up.
#[derive(Clone, Copy, Debug, PartialEq, Eq, Structural)]
pub struct Clock {
    /// The last reading, in nanoseconds since the epoch.
    pub last: u64,
}

impl Clock {
    /// A clock that has not been read yet.
    pub fn new() -> (r: Clock)
        ensures
            r.last == 0,
    {
        Clock { last: 0 }
    }

    /// Takes a reading of the system's clock over.
    pub fn advance(&mut self, nanos: Option<u128>) -> (r: u64)
        ensures
            r == later(old(self).last, clock_ns(nanos)),
            final(self).last == r,
    {
        let ns: u64 = reduce_nanos(nanos);
        if ns > self.last {
            self.last = ns;
        }
        self.last
    }
}

/// Nanoseconds since the epoch, never less than the clock's last reading.
pub fn now_ns(clock: &mut Clock) -> (r: u64)
    ensures
        exists|instant: SystemTime| r == #[trigger] reading(old(clock).last, instant),
        final(clock).last == r,
        old(clock).last <= r,
{
    let instant: SystemTime = SystemTime::now();
    let r: u64 = match since_epoch(instant) {
        Ok(span) => clock.advance(Some(span.as_nanos())),
        Err(_) => clock.advance(None),
    };
    assert(r == reading(old(clock).last, instant));
    r
}

/// Milliseconds since the epoch, never less than at the clock's last reading.
pub fn now_ms(clock: &mut Clock) -> (r: u64)
    ensures
        exists|instant: SystemTime|
            final(clock).last == #[trigger] reading(old(clock).last, instant),
        r == final(clock).last / 1_000_000,
        old(clock).last <= final(clock).last,
        old(clock).last / 1_000_000 <= r,
{
    let ns: u64 = now_ns(clock);
    ns / 1_000_000
}

/// A clock shows the system's count as it is while that fits in 64 bits, and its low
/// bits after that; zero stands for an instant before the epoch. Of two readings it
/// shows the greater.
pub proof fn law_clock_shows_the_count(nanos: u128, last: u64, ns: u64, instant: SystemTime)
    ensures
        nanos <= u64::MAX ==> clock_ns(Some(nanos)) == nanos,
        (nanos - clock_ns(Some(nanos))) % 0x1_0000_0000_0000_0000 == 0,
        clock_ns(None) == 0,
        last <= later(last, ns),
        ns <= later(last, ns),
        later(last, ns) == last || later(last, ns) == ns,
        last <= reading(last, instant),
        clock_ns(epoch_nanos(instant)) <= reading(last, instant),
        reading(last, instant) == last || reading(last, instant) == clock_ns(epoch_nanos(instant)),
{
}

/// Going on from the start of a span by its length leads to its end; a span that
/// runs forward has the length of the difference.
pub proof fn law_spans_lead_to_their_end(from: u64, to: u64)
    ensures
        (from + elapsed_spec(from, to)) % 0x1_0000_0000_0000_0000 == to,
        from <= to ==> elapsed_spec(from, to) == to - from,
{
}

/// What a clock shows after it was read at the given instants, one after the
/// other.
pub open spec fn last_reading(last: u64, instants: Seq<SystemTime>) -> u64
    decreases instants.len(),
{
    if instants.len() == 0 {
        last
    } else {
        reading(last_reading(last, instants.drop_last()), instants.last())
    }
}

/// Whenever the clock is read, and however the system's clock was set in between,
/// a later reading is never smaller than an earlier one, and neither is smaller
/// than the reading before both.
pub proof fn law_clock_is_monotonic(last: u64, instants: Seq<SystemTime>, i: int, j: int)
    requires
        0 <= i <= j <= instants.len(),
    ensures
        last <= last_reading(last, instants.take(i)),
        last_reading(last, instants.take(i)) <= last_reading(last, instants.take(j)),
    decreases j,
{
    if i < j {
        law_clock_is_monotonic(last, instants, i, j - 1);
        assert(instants.take(j).drop_last() =~= instants.take(j - 1));
    } else if i > 0 {
        law_clock_is_monotonic(last, instants, i - 1, i - 1);
        assert(instants.take(i).drop_last() =~= instants.take(i - 1));
    }
}

/// Nanoseconds from `from` to `to`, modulo 2^64: a clock that was set back
/// shows as a very long span.
pub open spec fn elapsed_spec(from: u64, to: u64) -> u64 {
    ((to - from) % 0x1_0000_0000_0000_0000) as u64
}

pub fn elapsed_ns(from: u64, to: u64) -> (r: u64)
    ensures
        r == elapsed_spec(from, to),
        from <= to ==> r == to - from,
{
    to.wrapping_sub(from)
}

} // verus!
