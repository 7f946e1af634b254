//! The wall clock against which subscriptions expire: instants are
//! nanoseconds since the Unix epoch.
use vstd::prelude::*;
use std::time::{Duration, SystemTime, SystemTimeError};

verus! {

#[verifier::external_type_specification]
#[verifier::external_body]
pub struct ExSystemTime(SystemTime);

#[verifier::external_type_specification]
#[verifier::external_body]
pub struct ExSystemTimeError(SystemTimeError);

/// The largest number of nanoseconds that a `Duration` can hold:
/// `u64::MAX` seconds and 999,999,999 nanoseconds.
pub const MAX_DURATION_NANOS: u128 = 18_446_744_073_709_551_615_999_999_999u128;

/// The current time of the system clock.
///
/// Trusted: wraps `SystemTime::now`; nothing is promised of the value, which
/// depends on the time of the call.
#[verifier::external_body]
fn system_time_now() -> SystemTime {
    SystemTime::now()
}

/// The time from the Unix epoch to `t`, or an error where `t` lies before
/// the epoch.
///
/// Trusted: wraps `SystemTime::duration_since` with `UNIX_EPOCH` as the
/// earlier time; nothing is promised of the value, which depends on `t`.
#[verifier::external_body]
fn since_unix_epoch(t: &SystemTime) -> Result<Duration, SystemTimeError> {
    t.duration_since(std::time::UNIX_EPOCH)
}

/// The whole number of nanoseconds in `d`.
///
/// Trusted: wraps `Duration::as_nanos`; all that is stated is the bound that
/// every `Duration` obeys.
#[verifier::external_body]
fn duration_nanos(d: &Duration) -> (r: u128)
    ensures
        r <= MAX_DURATION_NANOS,
{
    d.as_nanos()
}

/// The nanoseconds since the Unix epoch, as the system clock reads them now;
/// a clock set before the epoch reads as 0.
pub fn wall_clock_nanos() -> (r: u128)
    ensures
        r <= MAX_DURATION_NANOS,
{
    let t = system_time_now();
    match since_unix_epoch(&t) {
        Ok(d) => duration_nanos(&d),
        Err(_) => 0,
    }
}

} // verus!
