//! The clocks the monitor reads: a monotonic clock for flush cadence and the
//! wall clock for row timestamps. What they return depends on the moment of
//! the call, so nothing is stated of their results.

use std::time::{Duration, Instant, SystemTime};

use vstd::prelude::*;

verus! {

/// A span of time as `std::time::Duration` holds it: whole seconds and the
/// nanoseconds past them.
#[derive(Clone, Copy, Debug, PartialEq, Eq, Structural)]
pub struct Span {
    pub secs: u64,
    pub nanos: u32,
}

impl Span {
    /// A span of `secs` whole seconds.
    pub fn from_secs(secs: u64) -> (s: Span)
        ensures
            s.secs == secs,
            s.nanos == 0,
    {
        Span { secs, nanos: 0 }
    }
}

#[verifier::external_type_specification]
#[verifier::external_body]
pub struct ExInstant(Instant);

#[verifier::external_type_specification]
#[verifier::external_body]
pub struct ExSystemTime(SystemTime);

/// `Instant::now`: the current reading of the monotonic clock.
#[verifier::external_body]
pub(crate) fn instant_now() -> Instant {
    Instant::now()
}

/// `Instant::elapsed`: the time since `since` on the monotonic clock.
#[verifier::external_body]
pub(crate) fn instant_elapsed(since: &Instant) -> Duration {
    since.elapsed()
}

/// `Duration::as_millis`: whole milliseconds of a duration.
#[verifier::external_body]
pub(crate) fn duration_as_millis(d: &Duration) -> u128 {
    d.as_millis()
}

/// `SystemTime::now`: the current reading of the wall clock.
#[verifier::external_body]
pub(crate) fn system_now() -> SystemTime {
    SystemTime::now()
}

/// `SystemTime::duration_since(UNIX_EPOCH)`: the time since the Unix epoch,
/// or `None` for a reading before it.
#[verifier::external_body]
pub(crate) fn since_unix_epoch(t: &SystemTime) -> Option<Duration> {
    t.duration_since(std::time::UNIX_EPOCH).ok()
}

/// Whole milliseconds since `since` on the monotonic clock.
pub fn elapsed_millis(since: &Instant) -> u128 {
    let d = instant_elapsed(since);
    duration_as_millis(&d)
}

/// Milliseconds since the Unix epoch as a signed 64-bit value, as
/// `as_millis() as i64` gives it; 0 when the clock reads before the epoch.
pub fn unix_millis() -> i64 {
    match since_unix_epoch(&system_now()) {
        Some(d) => millis_to_i64(duration_as_millis(&d)),
        None => 0,
    }
}

/// The low 64 bits of `ms` as a signed value (`ms as i64`).
pub fn millis_to_i64(ms: u128) -> (r: i64)
    ensures
        r == ms as i64,
{
    #[verifier::truncate]
    (ms as i64)
}

} // verus!
