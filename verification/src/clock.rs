//! The system clock, read in whole seconds since the Unix epoch.
use std::time::{Duration, SystemTime, SystemTimeError};
use vstd::prelude::*;

verus! {

#[verifier::external_type_specification]
#[verifier::external_body]
pub struct ExSystemTime(SystemTime);

#[verifier::external_type_specification]
#[verifier::external_body]
pub struct ExSystemTimeError(SystemTimeError);

/// `SystemTime::now`: the current time of the system clock. Nothing is stated of
/// it, since it is whatever the clock reads.
#[verifier::external_body]
fn system_now() -> SystemTime {
    SystemTime::now()
}

/// `SystemTime::duration_since`, measured from `UNIX_EPOCH`: how long after the
/// Unix epoch `t` lies, or an error where `t` lies before it. Nothing is stated of
/// the result, which depends on the clock's reading.
#[verifier::external_body]
fn since_unix_epoch(t: &SystemTime) -> Result<Duration, SystemTimeError> {
    t.duration_since(std::time::UNIX_EPOCH)
}

/// `Duration::as_secs`: the whole seconds in `d`. `Duration` is opaque here, so
/// nothing is stated of the number.
#[verifier::external_body]
fn whole_secs(d: &Duration) -> u64 {
    d.as_secs()
}

/// Seconds since the Unix epoch by the system clock; 0 where the clock reads a
/// time before the epoch.
pub(crate) fn unix_time_now() -> u64 {
    let now = system_now();
    match since_unix_epoch(&now) {
        Ok(d) => whole_secs(&d),
        Err(_) => 0,
    }
}

} // verus!
