//! Readings of the system clock as time since the Unix epoch.

use std::time::SystemTime;
use core::time::Duration;
use vstd::prelude::*;

verus! {

#[verifier::external_type_specification]
#[verifier::external_body]
pub struct ExSystemTime(SystemTime);

/// `std::time::SystemTime::now()`. The value depends on the clock, so
/// nothing is stated of it.
#[verifier::external_body]
fn system_time_now() -> SystemTime {
    SystemTime::now()
}

/// `SystemTime::duration_since(UNIX_EPOCH)`, with its error (a time before
/// the epoch) as `None`. Which outcome comes depends on the clock reading, so
/// nothing is stated of it.
#[verifier::external_body]
fn duration_since_unix_epoch(t: &SystemTime) -> Option<Duration> {
    match t.duration_since(std::time::UNIX_EPOCH) {
        Ok(d) => Some(d),
        Err(_) => None,
    }
}

/// `Duration::as_micros`: the whole microseconds of a duration. The duration
/// is opaque here, so nothing is stated of the result.
#[verifier::external_body]
fn duration_as_micros(d: &Duration) -> u128 {
    d.as_micros()
}

/// `Duration::as_millis`: the whole milliseconds of a duration. The duration
/// is opaque here, so nothing is stated of the result.
#[verifier::external_body]
fn duration_as_millis(d: &Duration) -> u128 {
    d.as_millis()
}

/// Microseconds since the Unix epoch (cut to 64 bits), or `None` when the
/// clock reads a time before the epoch.
pub fn unix_time_micros() -> Option<u64> {
    let now = system_time_now();
    match duration_since_unix_epoch(&now) {
        Some(d) => {
            let us = duration_as_micros(&d);
            Some(#[verifier::truncate] (us as u64))
        },
        None => None,
    }
}

/// Milliseconds since the Unix epoch (cut to 64 bits), or 0 when the clock
/// reads a time before the epoch.
pub fn unix_time_millis() -> u64 {
    let now = system_time_now();
    match duration_since_unix_epoch(&now) {
        Some(d) => {
            let ms = duration_as_millis(&d);
            #[verifier::truncate] (ms as u64)
        },
        None => 0,
    }
}

} // verus!
