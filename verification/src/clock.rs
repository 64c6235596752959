//! The system clock, read as whole seconds since the unix epoch.
use vstd::prelude::*;

verus! {

#[verifier::external_type_specification]
#[verifier::external_body]
pub struct ExSystemTime(std::time::SystemTime);

/// Calls `std::time::SystemTime::now`. Nothing is claimed of the time read.
#[verifier::external_body]
fn system_time_now() -> std::time::SystemTime {
    std::time::SystemTime::now()
}

/// Calls `SystemTime::duration_since(UNIX_EPOCH)`, with its error (a time
/// before the epoch) turned into `None`. Nothing is claimed of the duration.
#[verifier::external_body]
fn since_unix_epoch(t: std::time::SystemTime) -> Option<core::time::Duration> {
    t.duration_since(std::time::UNIX_EPOCH).ok()
}

/// Calls `Duration::as_secs`. Nothing is claimed of the value: the duration
/// is opaque here.
#[verifier::external_body]
fn whole_secs(d: core::time::Duration) -> u64 {
    d.as_secs()
}

/// The current unix time in whole seconds, or `None` when the clock is set
/// before 1970. Nothing is claimed of the value.
pub fn unix_now_secs() -> Option<u64> {
    match since_unix_epoch(system_time_now()) {
        Some(d) => Some(whole_secs(d)),
        None => None,
    }
}

} // verus!
