//! Readings of the clocks, in whole microseconds.
//!
//! Nothing is known of a reading: the functions that take one state what
//! holds whatever it was, and their `_at` twins take the time as an
//! argument.
use vstd::prelude::*;

use std::time::{Duration, Instant, SystemTime};

verus! {

#[verifier::external_type_specification]
#[verifier::external_body]
pub struct ExInstant(std::time::Instant);

#[verifier::external_type_specification]
#[verifier::external_body]
pub struct ExSystemTime(std::time::SystemTime);

/// Calls `Instant::now`; nothing is stated of the reading.
#[verifier::external_body]
pub(crate) fn instant_now() -> Instant {
    Instant::now()
}

/// Calls `Instant::elapsed`; nothing is stated of the time it reports.
#[verifier::external_body]
fn instant_elapsed(start: &Instant) -> Duration {
    start.elapsed()
}

/// Calls `Duration::as_micros`; nothing is stated of the opaque duration.
#[verifier::external_body]
fn duration_as_micros(d: &Duration) -> u128 {
    d.as_micros()
}

/// Calls `SystemTime::now`; nothing is stated of the reading.
#[verifier::external_body]
fn system_now() -> SystemTime {
    SystemTime::now()
}

/// Calls `SystemTime::duration_since` with the Unix epoch; `None` stands
/// for its error (a clock set before 1970). Nothing else is stated.
#[verifier::external_body]
fn duration_since_epoch(t: &SystemTime) -> Option<Duration> {
    t.duration_since(std::time::UNIX_EPOCH).ok()
}

/// Microseconds on the monotonic clock since `start`, saturating at the
/// largest `u64`.
pub fn elapsed_us(start: &Instant) -> u64 {
    let d = instant_elapsed(start);
    let us = duration_as_micros(&d);
    if us > u64::MAX as u128 {
        u64::MAX
    } else {
        us as u64
    }
}

/// Microseconds since the Unix epoch on the system clock (zero for a
/// clock before the epoch), cut to the low 64 bits.
pub fn now_us() -> u64 {
    let t = system_now();
    match duration_since_epoch(&t) {
        Some(d) => {
            let us = duration_as_micros(&d);
            #[verifier::truncate]
            (us as u64)
        },
        None => 0,
    }
}

} // verus!
