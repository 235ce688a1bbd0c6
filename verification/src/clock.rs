//! Wall-clock access (Unix seconds). Nothing is promised of the time read.

use vstd::prelude::*;

use std::time::{Duration, SystemTime, SystemTimeError, UNIX_EPOCH};

verus! {

#[verifier::external_type_specification]
#[verifier::external_body]
pub struct ExSystemTime(SystemTime);

#[verifier::external_type_specification]
#[verifier::external_body]
pub struct ExSystemTimeError(SystemTimeError);

/// `SystemTime::now`: the current system time; any value may come back.
pub assume_specification[ SystemTime::now ]() -> (t: SystemTime);

/// `SystemTime::duration_since(UNIX_EPOCH)`: the time elapsed since the
/// Unix epoch, or an error when `t` is earlier; which one comes back is not
/// stated.
#[verifier::external_body]
fn since_epoch(t: &SystemTime) -> (r: Result<Duration, SystemTimeError>) {
    t.duration_since(UNIX_EPOCH)
}

/// `Duration::as_secs`: the whole seconds of a duration; any value.
pub assume_specification[ Duration::as_secs ](d: &Duration) -> (s: u64);

/// Current Unix time in seconds; `0` when the clock reads before the epoch.
pub fn now_unix() -> (secs: u64) {
    match since_epoch(&SystemTime::now()) {
        Ok(d) => d.as_secs(),
        Err(_) => 0,
    }
}

} // verus!
