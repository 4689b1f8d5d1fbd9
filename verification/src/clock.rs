//! Time readings used as the time base of the observer.
//!
//! Every timestamp in the library is a `u64` count of nanoseconds. A
//! `Clock` reads the wall clock once, when it starts, and from then on adds
//! the time a monotonic `Instant` has advanced since; so its readings are
//! comparable with the wall clock and never move back when the wall clock
//! is set. Elapsed times saturate at zero when a reading lies before an
//! earlier one, the same way `Instant::duration_since` does.

use vstd::prelude::*;

use crate::text::{decimal, push_decimal, push_text};

verus! {

#[verifier::external_type_specification]
#[verifier::external_body]
pub struct ExSystemTime(std::time::SystemTime);

#[verifier::external_type_specification]
#[verifier::external_body]
pub struct ExSystemTimeError(std::time::SystemTimeError);

#[verifier::external_type_specification]
#[verifier::external_body]
pub struct ExInstant(std::time::Instant);

/// `SystemTime::now`: the machine's clock; nothing is claimed of it.
#[verifier::external_body]
fn system_now() -> std::time::SystemTime {
    std::time::SystemTime::now()
}

/// `SystemTime::duration_since(UNIX_EPOCH)`: how long after the epoch `t`
/// lies, or an error when it lies before. Nothing is claimed of either.
#[verifier::external_body]
fn since_epoch(t: &std::time::SystemTime) -> Result<core::time::Duration, std::time::SystemTimeError> {
    t.duration_since(std::time::UNIX_EPOCH)
}

/// `Instant::now`: a reading of the monotonic clock; nothing is claimed of it.
#[verifier::external_body]
fn instant_now() -> std::time::Instant {
    std::time::Instant::now()
}

/// `Instant::duration_since`: how far `later` lies after `earlier` (zero
/// when it does not). Nothing is claimed of the opaque duration.
#[verifier::external_body]
fn instant_since(later: &std::time::Instant, earlier: &std::time::Instant) -> core::time::Duration {
    later.duration_since(*earlier)
}

/// `Duration::as_nanos`: the whole nanoseconds of a duration. The duration
/// is opaque here, so nothing is claimed of the count.
#[verifier::external_body]
fn duration_nanos(d: &core::time::Duration) -> u128 {
    d.as_nanos()
}

/// A count of nanoseconds as a `u64`: `u64::MAX` past its range, 0 when
/// there is no count.
pub open spec fn reading_nanos(reading: Option<u128>) -> u64 {
    match reading {
        Some(n) => if n > u64::MAX {
            u64::MAX
        } else {
            n as u64
        },
        None => 0,
    }
}

/// Computes `reading_nanos(reading)`.
pub fn nanos_from_reading(reading: Option<u128>) -> (r: u64)
    ensures
        r == reading_nanos(reading),
{
    match reading {
        Some(n) => if n > u64::MAX as u128 {
            u64::MAX
        } else {
            n as u64
        },
        None => 0,
    }
}

/// The wall clock in nanoseconds since the Unix epoch: 0 when the clock is
/// set before the epoch, `u64::MAX` past the range of a `u64`
/// (`nanos_from_reading` of what the clock gave).
pub fn clock_now() -> u64 {
    let t = system_now();
    let reading = match since_epoch(&t) {
        Ok(d) => Some(duration_nanos(&d)),
        Err(_) => None,
    };
    nanos_from_reading(reading)
}

/// `start` advanced by `elapsed` nanoseconds, stopping at `u64::MAX`.
pub open spec fn advanced(start: u64, elapsed: nat) -> u64 {
    if start + elapsed > u64::MAX {
        u64::MAX
    } else {
        (start + elapsed) as u64
    }
}

/// Computes `advanced(start, elapsed)`.
pub fn advance(start: u64, elapsed: u128) -> (r: u64)
    ensures
        r == advanced(start, elapsed as nat),
{
    if elapsed > (u64::MAX - start) as u128 {
        u64::MAX
    } else {
        start + elapsed as u64
    }
}

/// A time base: the wall clock read once at its start, advanced by a
/// monotonic clock since.
pub struct Clock {
    start_ns: u64,
    base: std::time::Instant,
}

impl Clock {
    /// The wall-clock reading taken at the start.
    pub closed spec fn start(&self) -> u64 {
        self.start_ns
    }

    /// Start a clock: read the wall clock and the monotonic clock.
    pub fn start_now() -> Clock {
        let start_ns = clock_now();
        let base = instant_now();
        Clock { start_ns, base }
    }

    /// The current time: the start reading advanced by how far the
    /// monotonic clock has moved since the start.
    pub fn now(&self) -> (r: u64)
        ensures
            r >= self.start(),
    {
        let later = instant_now();
        let d = instant_since(&later, &self.base);
        let n = duration_nanos(&d);
        advance(self.start_ns, n)
    }
}

/// Nanoseconds elapsed from `earlier` to `later`, zero when `earlier` is later.
pub open spec fn elapsed(later: u64, earlier: u64) -> nat {
    if later >= earlier {
        (later - earlier) as nat
    } else {
        0
    }
}

/// Computes `elapsed(later, earlier)`.
pub fn elapsed_nanos(later: u64, earlier: u64) -> (r: u64)
    ensures
        r == elapsed(later, earlier),
{
    if later >= earlier {
        later - earlier
    } else {
        0
    }
}

/// A number of milliseconds expressed in nanoseconds.
pub open spec fn millis(ms: u64) -> nat {
    ms as nat * 1_000_000
}

/// Computes `millis(ms)` exactly, as a `u128`.
pub fn millis_to_nanos(ms: u64) -> (r: u128)
    ensures
        r == millis(ms),
{
    assert(ms as nat * 1_000_000 <= u64::MAX as nat * 1_000_000) by (nonlinear_arith)
        requires ms <= u64::MAX;
    (ms as u128) * 1_000_000
}

/// "<seconds>s since epoch" for a reading of `ns` nanoseconds since the
/// Unix epoch, with the seconds rounded down.
pub open spec fn epoch_text(ns: u64) -> Seq<char> {
    decimal((ns / 1_000_000_000) as nat) + seq!['s', ' ', 's', 'i', 'n', 'c', 'e', ' ', 'e', 'p', 'o', 'c', 'h']
}

/// Computes `epoch_text(ns)`.
pub fn epoch_seconds_text(ns: u64) -> (r: String)
    ensures
        r@ == epoch_text(ns),
{
    let mut out = String::new();
    push_decimal(&mut out, ns / 1_000_000_000);
    push_text(&mut out, "s since epoch");
    proof {
        reveal_strlit("s since epoch");
        assert(Seq::<char>::empty() + decimal((ns / 1_000_000_000) as nat) + "s since epoch"@ =~= epoch_text(ns));
    }
    out
}

/// The current time as "<seconds>s since epoch" (no calendar dependency).
pub fn chrono_now() -> (r: String)
    ensures
        exists|ns: u64| r@ == epoch_text(ns),
{
    let ns = clock_now();
    epoch_seconds_text(ns)
}

} // verus!
