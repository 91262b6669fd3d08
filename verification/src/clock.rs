//! The system clock, read through std without panicking.

use vstd::prelude::*;

use std::time::{Duration, SystemTime, SystemTimeError};

verus! {

/// A reading of the system clock, from std. Verus sees nothing inside it.
#[verifier::external_type_specification]
#[verifier::external_body]
pub struct ExSystemTime(SystemTime);

/// The error std gives when a time lies before the one it is measured
/// from. Verus sees nothing inside it.
#[verifier::external_type_specification]
#[verifier::external_body]
pub struct ExSystemTimeError(SystemTimeError);

/// `SystemTime::now`: the current reading of the system clock. It depends
/// on the machine's clock, so nothing is stated of it.
#[verifier::external_body]
fn system_now() -> (now: SystemTime) {
    SystemTime::now()
}

/// `SystemTime::duration_since` from `UNIX_EPOCH`: the time elapsed since
/// the epoch, or an error when `time` lies before it. Which of the two comes
/// back depends on the clock's reading, so nothing is stated of it.
#[verifier::external_body]
fn since_epoch(time: &SystemTime) -> (elapsed: Result<Duration, SystemTimeError>) {
    time.duration_since(std::time::UNIX_EPOCH)
}

/// `Duration::as_millis`: the whole milliseconds of `duration`. The duration
/// is a reading of the clock, so nothing is stated of the value.
#[verifier::external_body]
fn whole_millis(duration: &Duration) -> (millis: u128) {
    duration.as_millis()
}

/// The timestamp for a reading of the clock: the whole milliseconds
/// `elapsed` since the Unix epoch, capped at `u64::MAX`, or 0 when the clock
/// reads before the epoch (`None`).
pub open spec fn spec_epoch_millis(elapsed: Option<u128>) -> u64 {
    match elapsed {
        Some(ms) => if ms <= u64::MAX {
            ms as u64
        } else {
            u64::MAX
        },
        None => 0,
    }
}

/// The timestamp for a reading of the clock (see `spec_epoch_millis`).
pub fn epoch_millis(elapsed: Option<u128>) -> (millis: u64)
    ensures
        millis == spec_epoch_millis(elapsed),
{
    match elapsed {
        Some(ms) => if ms <= 0xffff_ffff_ffff_ffffu128 {
            ms as u64
        } else {
            0xffff_ffff_ffff_ffffu64
        },
        None => 0,
    }
}

/// The current time in milliseconds since the Unix epoch, from the system
/// clock's reading (see `epoch_millis`): the whole milliseconds elapsed
/// since the epoch, capped at `u64::MAX`, or 0 when the clock reads before
/// the epoch. The reading depends on the clock, so no value is promised.
pub fn clock_millis() -> (millis: u64) {
    let elapsed = match since_epoch(&system_now()) {
        Ok(elapsed) => Some(whole_millis(&elapsed)),
        Err(_) => None,
    };
    epoch_millis(elapsed)
}

} // verus!
