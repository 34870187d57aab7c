//! Wall-clock time as whole seconds since the Unix epoch.

use std::time::{Duration, SystemTime, SystemTimeError, UNIX_EPOCH};
use vstd::prelude::*;

verus! {

#[verifier::external_type_specification]
#[verifier::external_body]
pub struct ExSystemTime(SystemTime);

#[verifier::external_type_specification]
#[verifier::external_body]
pub struct ExSystemTimeError(SystemTimeError);

/// `SystemTime::now`: the current reading of the system clock. Nothing is
/// claimed of the value: two readings may differ in either direction.
#[verifier::external_body]
fn system_now() -> (now: SystemTime) {
    SystemTime::now()
}

/// `SystemTime::duration_since` against `UNIX_EPOCH`: the time elapsed since
/// the epoch, or an error when the clock reads earlier than the epoch.
/// Nothing is claimed of which of the two comes back.
#[verifier::external_body]
fn since_epoch(time: &SystemTime) -> (elapsed: Result<Duration, SystemTimeError>) {
    time.duration_since(UNIX_EPOCH)
}

/// `Duration::as_secs`: the whole seconds of a duration. Nothing is claimed
/// of the number.
#[verifier::external_body]
fn whole_seconds(elapsed: &Duration) -> (seconds: u64) {
    elapsed.as_secs()
}

/// The current time as `timestamp_of` dates it: whole seconds since the
/// Unix epoch, zero when the system clock reads earlier than the epoch.
pub fn unix_seconds() -> (seconds: u64) {
    let now = system_now();
    let elapsed = match since_epoch(&now) {
        Ok(elapsed) => Some(whole_seconds(&elapsed)),
        Err(_) => None,
    };
    timestamp_of(elapsed)
}

/// The timestamp that a clock reading stands for: the whole seconds that
/// have elapsed since the epoch, or zero for a reading from before it.
pub fn timestamp_of(elapsed: Option<u64>) -> (seconds: u64)
    ensures
        seconds == match elapsed {
            Some(whole) => whole,
            None => 0,
        },
{
    match elapsed {
        Some(whole) => whole,
        None => 0,
    }
}

} // verus!
