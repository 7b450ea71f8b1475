//! The wall clock, read through std.

use vstd::prelude::*;

verus! {

/// Nanoseconds since the Unix epoch, from `SystemTime::now`,
/// `SystemTime::duration_since` and `Duration::as_nanos`; `None` when the
/// system clock reads a time before the epoch (the error `duration_since`
/// gives). Nothing is stated of the value or of which of the two comes: it
/// is the time.
#[verifier::external_body]
pub(crate) fn now_nanos() -> Option<u128> {
    match std::time::SystemTime::now().duration_since(std::time::UNIX_EPOCH) {
        Ok(d) => Some(d.as_nanos()),
        Err(_) => None,
    }
}

/// Seconds since the Unix epoch, from `SystemTime::now`,
/// `SystemTime::duration_since` and `Duration::as_secs`; `None` when the
/// system clock reads a time before the epoch. Nothing is stated of the
/// value or of which of the two comes: it is the time.
#[verifier::external_body]
pub(crate) fn now_secs() -> Option<u64> {
    match std::time::SystemTime::now().duration_since(std::time::UNIX_EPOCH) {
        Ok(d) => Some(d.as_secs()),
        Err(_) => None,
    }
}

/// The time in nanoseconds since the Unix epoch, or 0 when the system clock
/// reads a time before it.
pub(crate) fn nanos_since_epoch() -> u128 {
    match now_nanos() {
        Some(n) => n,
        None => 0,
    }
}

/// The time in seconds since the Unix epoch, or 0 when the system clock
/// reads a time before it.
pub(crate) fn secs_since_epoch() -> u64 {
    match now_secs() {
        Some(n) => n,
        None => 0,
    }
}

} // verus!
