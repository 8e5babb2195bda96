//! The wall clock, read at creation time.

use vstd::prelude::*;

verus! {

/// Milliseconds in a second.
pub const MILLIS_PER_SECOND: u64 = 1000;

/// Trusted: calls `chrono::Utc::now` and reads the result with
/// `DateTime::timestamp_millis`. `Utc::now` is built from the time elapsed
/// since the Unix epoch, so the result is never negative; nothing else is
/// claimed of it. `Utc::now` panics on a machine whose clock stands before
/// the epoch.
#[verifier::external_body]
fn utc_now_millis() -> (t: i64)
    ensures
        t >= 0,
{
    chrono::Utc::now().timestamp_millis()
}

/// Trusted: calls `chrono::Utc::now` and reads the result with
/// `DateTime::timestamp`. `Utc::now` is built from the time elapsed since
/// the Unix epoch, so the result is never negative; nothing else is claimed
/// of it. `Utc::now` panics on a machine whose clock stands before the
/// epoch.
#[verifier::external_body]
fn utc_now_seconds() -> (t: i64)
    ensures
        t >= 0,
{
    chrono::Utc::now().timestamp()
}

/// The largest time that the clock can give.
pub const LATEST: u64 = 0x7fff_ffff_ffff_ffff;

/// The current time in milliseconds since the Unix epoch. Whatever the
/// clock says, the time fits a signed 64-bit number.
pub fn now_millis() -> (t: u64)
    ensures
        t <= LATEST,
{
    let t: i64 = utc_now_millis();
    t as u64
}

/// The current time in whole seconds since the Unix epoch. Whatever the
/// clock says, the time fits a signed 64-bit number.
pub fn now_seconds() -> (t: u64)
    ensures
        t <= LATEST,
{
    let t: i64 = utc_now_seconds();
    t as u64
}

/// The whole seconds in a millisecond timestamp.
pub open spec fn seconds_of(millis: u64) -> u64 {
    (millis / MILLIS_PER_SECOND) as u64
}

/// The whole seconds in a millisecond timestamp.
pub fn seconds_of_millis(millis: u64) -> (s: u64)
    ensures
        s == seconds_of(millis),
{
    millis / MILLIS_PER_SECOND
}

} // verus!
