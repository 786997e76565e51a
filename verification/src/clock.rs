//! The time of day, in seconds since the Unix epoch.

use vstd::prelude::*;

verus! {

/// Calls `std::time::SystemTime::elapsed` on the Unix epoch: the seconds
/// the system clock counts since then, `None` where the clock stands before
/// the epoch. Trusted, with nothing stated of the result: it is the clock's.
#[verifier::external_body]
fn epoch_seconds() -> Option<u64> {
    match std::time::UNIX_EPOCH.elapsed() {
        Ok(elapsed) => Some(elapsed.as_secs()),
        Err(_) => None,
    }
}

/// The present time in seconds since the Unix epoch; a clock that stands
/// before the epoch counts as standing at it.
pub fn unix_now() -> u64 {
    match epoch_seconds() {
        Some(seconds) => seconds,
        None => 0,
    }
}

/// The sum of a time and a span, held at the largest time where it would
/// pass it.
pub open spec fn later(time: u64, span: u64) -> u64 {
    if time + span <= u64::MAX {
        (time + span) as u64
    } else {
        u64::MAX
    }
}

/// The time `span` seconds after `time`, held at the largest time.
pub fn time_after(time: u64, span: u64) -> (r: u64)
    ensures
        r == later(time, span),
{
    if span <= u64::MAX - time {
        time + span
    } else {
        u64::MAX
    }
}

} // verus!
