use vstd::prelude::*;
use std::time::{Duration, SystemTime, SystemTimeError, UNIX_EPOCH};

verus! {

#[verifier::external_type_specification]
#[verifier::external_body]
pub struct ExSystemTime(SystemTime);

#[verifier::external_type_specification]
#[verifier::external_body]
pub struct ExSystemTimeError(SystemTimeError);

/// The system clock read before the Unix epoch.
#[derive(Debug)]
pub enum ClockError {
    BeforeUnixEpoch,
}

/// `SystemTime::now`: the current reading of the system clock.  Nothing is
/// claimed of it: it depends on the moment of the call.
#[verifier::external_body]
fn system_now() -> SystemTime {
    SystemTime::now()
}

/// `SystemTime::duration_since` with `UNIX_EPOCH`: the time elapsed since the
/// epoch, or an error when `t` lies before it.  Nothing is claimed: `t` is opaque.
#[verifier::external_body]
fn since_unix_epoch(t: &SystemTime) -> Result<Duration, SystemTimeError> {
    t.duration_since(UNIX_EPOCH)
}

/// `Duration::as_secs`: the whole seconds of `d`.  Nothing is claimed: `d` is opaque.
#[verifier::external_body]
fn whole_seconds(d: &Duration) -> u64 {
    d.as_secs()
}

/// The current Unix time in whole seconds, as an `i64` (the seconds count
/// cast with `as`).  A clock that reads before the epoch gives
/// `BeforeUnixEpoch`.  The value depends on the moment of the call, so no
/// clause is stated of it.
pub fn get_current_timestamp() -> Result<i64, ClockError> {
    let now = system_now();
    match since_unix_epoch(&now) {
        Ok(elapsed) => {
            let seconds = whole_seconds(&elapsed);
            Ok(seconds as i64)
        },
        Err(_) => Err(ClockError::BeforeUnixEpoch),
    }
}

} // verus!
