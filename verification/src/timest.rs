//! Epoch-second timestamps.

use std::time::{Duration, SystemTime, SystemTimeError};
use vstd::prelude::*;

verus! {

/// Seconds in one minute.
pub const SECONDS_PER_MINUTE: u64 = 60;

/// The timestamp `seconds` after `timestamp`.
pub fn add_seconds(timestamp: u64, seconds: u64) -> (later: u64)
    requires
        timestamp + seconds <= u64::MAX,
    ensures
        later == timestamp + seconds,
{
    timestamp + seconds
}

/// The timestamp `minutes` minutes after `timestamp`.
pub fn add_minutes(timestamp: u64, minutes: u64) -> (later: u64)
    requires
        timestamp + minutes * 60 <= u64::MAX,
    ensures
        later == timestamp + minutes * 60,
{
    timestamp + minutes * SECONDS_PER_MINUTE
}

/// A point in time as the system clock gives it.
#[verifier::external_type_specification]
#[verifier::external_body]
pub struct ExSystemTime(SystemTime);

/// What the clock answers when asked for the time between two points that
/// stand in the wrong order.
#[verifier::external_type_specification]
#[verifier::external_body]
pub struct ExSystemTimeError(SystemTimeError);

/// Reads the system clock.
///
/// Trusted: stands for `SystemTime::now`. Nothing is claimed of the result:
/// two readings may differ in either direction.
#[verifier::external_body]
fn system_now() -> SystemTime {
    SystemTime::now()
}

/// The time from the Unix epoch to `t`, or an error where `t` lies before it.
///
/// Trusted: stands for `SystemTime::duration_since` with `UNIX_EPOCH` as the
/// earlier point. Nothing is claimed of the result.
#[verifier::external_body]
fn since_epoch(t: &SystemTime) -> Result<Duration, SystemTimeError> {
    t.duration_since(std::time::UNIX_EPOCH)
}

/// The whole seconds of `d`.
///
/// Trusted: stands for `Duration::as_secs`. Nothing is claimed of the result.
#[verifier::external_body]
fn whole_seconds(d: &Duration) -> u64 {
    d.as_secs()
}

/// The timestamp for a reading of the clock: the whole seconds since the
/// Unix epoch where the clock gave them, and 0 where it stands before the
/// epoch and gave none.
pub fn timestamp_of(elapsed: Option<u64>) -> (timestamp: u64)
    ensures
        timestamp == match elapsed {
            Some(seconds) => seconds,
            None => 0,
        },
{
    match elapsed {
        Some(seconds) => seconds,
        None => 0,
    }
}

/// The current time in whole seconds since the Unix epoch; 0 where the clock
/// stands before it. Nothing is promised of the value: it is the clock's,
/// and `timestamp_of` says what each reading of the clock gives.
pub fn get_timestamp() -> u64 {
    let now = system_now();
    let elapsed = match since_epoch(&now) {
        Ok(elapsed) => Some(whole_seconds(&elapsed)),
        Err(_) => None,
    };
    timestamp_of(elapsed)
}

/// Whether `timestamp` lies before `now`.
pub fn is_older_than_at(now: u64, timestamp: u64) -> (older: bool)
    ensures
        older == (now > timestamp),
{
    now > timestamp
}

/// Whether `timestamp` lies before the current time. The answer depends on
/// the clock, and `is_older_than_at` says what it is for each reading; the
/// one thing that holds of every reading is that nothing is later than the
/// last timestamp there is.
pub fn is_older_than(timestamp: u64) -> (older: bool)
    ensures
        timestamp == u64::MAX ==> !older,
{
    is_older_than_at(get_timestamp(), timestamp)
}

} // verus!
