//! A cheap pseudo-random number drawn from the clock.

use vstd::prelude::*;
use std::time::{Duration, SystemTime, UNIX_EPOCH};

verus! {

#[verifier::external_type_specification]
#[verifier::external_body]
pub struct ExSystemTime(SystemTime);

/// `SystemTime::now`: the current time of the system clock, which this item
/// says nothing about.
#[verifier::external_body]
fn system_now() -> SystemTime {
    SystemTime::now()
}

/// `SystemTime::duration_since(UNIX_EPOCH)`: the time since the epoch, or
/// `None` when the clock reads earlier than the epoch.  Nothing is stated
/// of which happens or of the duration.
#[verifier::external_body]
fn since_epoch(t: SystemTime) -> Option<Duration> {
    match t.duration_since(UNIX_EPOCH) {
        Ok(d) => Some(d),
        Err(_) => None,
    }
}

/// `Duration::subsec_nanos`: the fractional part of the duration in
/// nanoseconds, which the documentation bounds below one second.
#[verifier::external_body]
fn subsec_nanos(d: &Duration) -> (r: u32)
    ensures
        r < 1_000_000_000,
{
    d.subsec_nanos()
}

/// The number `rand` draws from a clock reading of `nanos` nanoseconds
/// past the second: `nanos` modulo `limit`, or 0 for a `limit` of 0.
pub fn rand_from_nanos(nanos: u32, limit: u32) -> (r: u32)
    ensures
        r == if limit > 0 {
            nanos % limit
        } else {
            0
        },
{
    if limit > 0 {
        nanos % limit
    } else {
        0
    }
}

/// A number below `limit` taken from the nanoseconds of the system clock,
/// or 0 for a `limit` of 0 (and when the clock reads before the epoch).
pub fn rand(limit: u32) -> (r: u32)
    ensures
        limit > 0 ==> r < limit,
        limit == 0 ==> r == 0,
{
    if limit > 0 {
        match since_epoch(system_now()) {
            Some(d) => rand_from_nanos(subsec_nanos(&d), limit),
            None => 0,
        }
    } else {
        0
    }
}

} // verus!
