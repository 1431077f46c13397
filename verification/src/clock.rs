//! The wall clock.

use vstd::prelude::*;

verus! {

/// `time::get_time`: the seconds part of the current time, counted from
/// 1970-01-01T00:00:00Z. Nothing is known of the value: each call reads the
/// clock again.
#[verifier::external_body]
fn epoch_seconds() -> i64 {
    time::get_time().sec
}

/// A clock reading as a time that an entry can be held against: a reading
/// before the epoch counts as the epoch itself.
pub open spec fn since_epoch(reading: int) -> nat {
    if reading < 0 {
        0
    } else {
        reading as nat
    }
}

/// Turns a reading of the clock, in seconds from the epoch, into the time
/// that the entries are held against.
pub fn seconds_since_epoch(reading: i64) -> (seconds: u64)
    ensures
        seconds == since_epoch(reading as int),
{
    if reading < 0 {
        0
    } else {
        reading as u64
    }
}

/// The current time in whole seconds since the epoch. What the clock says
/// cannot be foretold; the time is what `seconds_since_epoch` makes of it.
pub fn current_time() -> (now: u64)
    ensures
        exists|reading: i64| now == #[trigger] since_epoch(reading as int),
        now <= i64::MAX,
{
    let reading = epoch_seconds();
    let now = seconds_since_epoch(reading);
    assert(now == since_epoch(reading as int));
    now
}

} // verus!
