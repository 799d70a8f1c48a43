//! The system clock, read in whole seconds since the Unix epoch.

use vstd::prelude::*;
use std::time::SystemTime;

verus! {

#[verifier::external_type_specification]
#[verifier::external_body]
pub struct ExSystemTime(SystemTime);

/// Calls `SystemTime::now`: the current time of the system clock. Nothing is
/// stated of it: it depends on when the call is made.
#[verifier::external_body]
fn system_now() -> SystemTime {
    SystemTime::now()
}

/// Calls `SystemTime::duration_since(UNIX_EPOCH)` and takes the whole seconds of
/// the duration; `None` where the time lies before the epoch (the `Err` case).
/// Nothing more is stated: the value of an opaque `SystemTime` is not modelled.
#[verifier::external_body]
fn seconds_since_epoch(t: SystemTime) -> Option<u64> {
    match t.duration_since(std::time::UNIX_EPOCH) {
        Ok(d) => Some(d.as_secs()),
        Err(_) => None,
    }
}

/// The current time in whole seconds since the Unix epoch; `None` when the
/// system clock reads a time before the epoch.
pub fn unix_now() -> Option<u64> {
    seconds_since_epoch(system_now())
}

} // verus!
