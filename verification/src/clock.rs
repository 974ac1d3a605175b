//! The wall clock, read in whole milliseconds since the Unix epoch.

use std::time::{Duration, SystemTimeError};
use vstd::prelude::*;

verus! {

#[verifier::external_type_specification]
#[verifier::external_body]
pub struct ExSystemTimeError(std::time::SystemTimeError);

/// Calls `SystemTime::elapsed` on `UNIX_EPOCH`, which reads the system clock.
///
/// Trusted: nothing is claimed of the result. It is an error where the clock
/// stands before the epoch.
#[verifier::external_body]
fn elapsed_since_epoch() -> Result<Duration, SystemTimeError> {
    std::time::UNIX_EPOCH.elapsed()
}

/// Calls `Duration::as_millis`.
///
/// Trusted: nothing is claimed of the result.
#[verifier::external_body]
fn whole_millis(span: &Duration) -> u128 {
    span.as_millis()
}

/// The timestamp for a count of milliseconds since the epoch: the count
/// itself, or the largest timestamp where the count is beyond it.
pub open spec fn spec_timestamp_from_millis(millis: u128) -> u64 {
    if millis > u64::MAX {
        u64::MAX
    } else {
        millis as u64
    }
}

/// Fits a count of milliseconds since the epoch into a timestamp.
pub fn timestamp_from_millis(millis: u128) -> (timestamp: u64)
    ensures
        timestamp == spec_timestamp_from_millis(millis),
{
    if millis > u64::MAX as u128 {
        u64::MAX
    } else {
        millis as u64
    }
}

/// The timestamp for a reading of the clock: that of the count of
/// milliseconds since the epoch, or 0 where the clock stood before the epoch
/// and gave no count.
pub open spec fn spec_timestamp_from_reading(reading: Option<u128>) -> u64 {
    match reading {
        Some(millis) => spec_timestamp_from_millis(millis),
        None => 0,
    }
}

/// Turns a reading of the clock into a timestamp.
pub fn timestamp_from_reading(reading: Option<u128>) -> (timestamp: u64)
    ensures
        timestamp == spec_timestamp_from_reading(reading),
{
    match reading {
        Some(millis) => timestamp_from_millis(millis),
        None => 0,
    }
}

/// Reads the system clock once and gives the current timestamp. A clock that
/// stands before the epoch reads as timestamp 0. The result is whatever the
/// clock says, so nothing is promised of it.
pub(crate) fn now() -> u64 {
    let reading = match elapsed_since_epoch() {
        Ok(span) => Some(whole_millis(&span)),
        Err(_) => None,
    };
    timestamp_from_reading(reading)
}

} // verus!
