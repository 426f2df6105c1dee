//! Wall-clock time.

use std::time::{Duration, SystemTime, SystemTimeError};
use vstd::prelude::*;

verus! {

#[verifier::external_type_specification]
#[verifier::external_body]
pub struct ExSystemTime(SystemTime);

#[verifier::external_type_specification]
#[verifier::external_body]
pub struct ExSystemTimeError(SystemTimeError);

/// `SystemTime::now`: the current reading of the system clock. It depends on
/// the clock, so nothing is stated of it.
#[verifier::external_body]
fn system_now() -> (r: SystemTime) {
    SystemTime::now()
}

/// `SystemTime::duration_since`, taken from the Unix epoch: the time elapsed
/// since then, or an error when `t` lies before it. Which of the two comes
/// back depends on the clock, so nothing is stated of it.
#[verifier::external_body]
fn since_epoch(t: &SystemTime) -> (r: Result<Duration, SystemTimeError>) {
    t.duration_since(SystemTime::UNIX_EPOCH)
}

/// `Duration::as_secs`: the whole seconds of a duration. A `Duration` is
/// opaque here, so nothing is stated of the number.
#[verifier::external_body]
fn whole_seconds(d: &Duration) -> (r: u64) {
    d.as_secs()
}

/// `Duration::subsec_nanos`: the nanoseconds past the whole seconds of a
/// duration, which the documentation promises to be under one billion.
#[verifier::external_body]
fn fraction_nanos(d: &Duration) -> (r: u32)
    ensures
        r < 1_000_000_000,
{
    d.subsec_nanos()
}

/// Whole seconds since the Unix epoch, or 0 when the clock is set before the
/// epoch.
pub fn now() -> (r: u64) {
    let t = system_now();
    match since_epoch(&t) {
        Ok(d) => whole_seconds(&d),
        Err(_) => 0,
    }
}

/// The time since the Unix epoch as whole seconds and the nanoseconds past
/// them, or zero when the clock is set before the epoch.
pub fn now_precise() -> (r: (u64, u32))
    ensures
        r.1 < 1_000_000_000,
{
    let t = system_now();
    match since_epoch(&t) {
        Ok(d) => (whole_seconds(&d), fraction_nanos(&d)),
        Err(_) => (0, 0),
    }
}

} // verus!
