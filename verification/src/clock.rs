//! The wall clock, read as seconds since the Unix epoch.

use vstd::prelude::*;

use std::time::{Duration, SystemTime, SystemTimeError, UNIX_EPOCH};

verus! {

/// `std::time::SystemTime`: a reading of the clock. Opaque here.
#[verifier::external_type_specification]
#[verifier::external_body]
pub struct ExSystemTime(SystemTime);

/// `std::time::SystemTimeError`: a time before the one it is measured from.
/// Opaque here.
#[verifier::external_type_specification]
#[verifier::external_body]
pub struct ExSystemTimeError(SystemTimeError);

/// `SystemTime::now` reads the clock. Nothing is known of what it returns.
pub assume_specification[ SystemTime::now ]() -> (now: SystemTime);

/// Calls `SystemTime::duration_since` with `UNIX_EPOCH`: the time elapsed
/// since the epoch, or an error for a time before it. Nothing is known of
/// which.
#[verifier::external_body]
pub(crate) fn since_unix_epoch(time: &SystemTime) -> (elapsed: Result<Duration, SystemTimeError>) {
    time.duration_since(UNIX_EPOCH)
}

/// `Duration::as_secs` gives the whole seconds of a duration. A duration is
/// opaque here, so nothing is known of their number.
pub assume_specification[ Duration::as_secs ](duration: &Duration) -> (seconds: u64);

} // verus!
