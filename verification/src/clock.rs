//! Reading the wall clock as milliseconds since the Unix epoch.

use vstd::prelude::*;
use std::time::{Duration, SystemTime, SystemTimeError};

verus! {

/// The largest number of milliseconds a `Duration` can hold: `u64::MAX`
/// seconds and 999 milliseconds.
pub const MAX_CLOCK_MS: u128 = 18_446_744_073_709_551_615_999u128;

#[verifier::external_type_specification]
#[verifier::external_body]
pub struct ExSystemTime(SystemTime);

#[verifier::external_type_specification]
#[verifier::external_body]
pub struct ExSystemTimeError(SystemTimeError);

/// `SystemTime::now`: the current wall-clock time. Nothing is claimed of it.
#[verifier::external_body]
fn system_now() -> SystemTime {
    SystemTime::now()
}

/// `SystemTime::duration_since` against `UNIX_EPOCH`: the time elapsed since
/// the epoch, or an error for a time before it. Nothing is claimed of which
/// comes back.
#[verifier::external_body]
fn since_unix_epoch(t: &SystemTime) -> Result<Duration, SystemTimeError> {
    t.duration_since(std::time::UNIX_EPOCH)
}

/// The whole milliseconds in a duration, as `Duration::as_millis` counts them:
/// a function of the duration alone.
pub uninterp spec fn whole_millis(d: Duration) -> u128;

/// `Duration::as_millis`: the whole milliseconds of `d`. Claimed: the result
/// is `whole_millis(d)`, and it is within what a `Duration` can hold
/// (`u64::MAX` seconds and under one more).
#[verifier::external_body]
fn duration_millis(d: &Duration) -> (r: u128)
    ensures
        r == whole_millis(*d),
        r <= MAX_CLOCK_MS,
{
    d.as_millis()
}

/// Milliseconds past the epoch from the time elapsed since it, as
/// `SystemTime::duration_since(UNIX_EPOCH)` reports it: the whole
/// milliseconds of the elapsed time, or 0 where the clock read earlier than
/// the epoch.
pub fn epoch_ms_from_elapsed(elapsed: Result<Duration, SystemTimeError>) -> (r: u128)
    ensures
        elapsed matches Ok(d) ==> r == whole_millis(d),
        elapsed is Err ==> r == 0,
        r <= MAX_CLOCK_MS,
{
    match elapsed {
        Ok(d) => duration_millis(&d),
        Err(_) => 0,
    }
}

/// Milliseconds since the Unix epoch, or 0 when the clock reads earlier than it.
pub fn epoch_ms() -> (r: u128)
    ensures
        r <= MAX_CLOCK_MS,
{
    epoch_ms_from_elapsed(since_unix_epoch(&system_now()))
}

} // verus!
