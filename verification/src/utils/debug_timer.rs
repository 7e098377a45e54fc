//! A stopwatch for timing the stages of the pipeline.

use vstd::prelude::*;
use std::time::{Duration, Instant};

verus! {

#[verifier::external_type_specification]
#[verifier::external_body]
pub struct ExInstant(Instant);

/// Nanoseconds in a second.
const NANOS_PER_SEC: u128 = 1_000_000_000;

/// Nanoseconds in the longest `Duration`: `u64::MAX` seconds and just under
/// one more.
pub open spec fn max_duration_nanos() -> int {
    (u64::MAX as int + 1) * 1_000_000_000 - 1
}

/// `Instant::now`: the current instant, of which nothing is stated.
#[verifier::external_body]
fn instant_now() -> Instant {
    Instant::now()
}

/// `Instant::elapsed`: the time since `i`, of which nothing is stated.
#[verifier::external_body]
fn elapsed(i: &Instant) -> Duration {
    i.elapsed()
}

/// `Duration::as_nanos`: the duration in nanoseconds, which is at most the
/// length of the longest duration.
#[verifier::external_body]
fn as_nanos(d: &Duration) -> (r: u128)
    ensures
        r <= max_duration_nanos(),
{
    d.as_nanos()
}

/// What `Duration::new(secs, nanos)` gives: the duration of `secs`
/// seconds and `nanos` nanoseconds.
pub uninterp spec fn duration_of(secs: u64, nanos: u32) -> Duration;

/// The duration of `n` nanoseconds, as whole seconds and the nanoseconds
/// left over.
pub open spec fn duration_of_nanos(n: u128) -> Duration {
    duration_of((n / 1_000_000_000) as u64, (n % 1_000_000_000) as u32)
}

/// The distance between two instants measured in nanoseconds.
pub open spec fn nanos_between(a: u128, b: u128) -> u128 {
    if b >= a {
        (b - a) as u128
    } else {
        (a - b) as u128
    }
}

/// `Duration::new`: the duration of `secs` seconds and `nanos`
/// nanoseconds, named `duration_of`; it is a function of its arguments
/// alone, and it cannot overflow when `nanos` is below one second.
#[verifier::external_body]
fn duration_new(secs: u64, nanos: u32) -> (r: Duration)
    requires
        nanos < 1_000_000_000,
    ensures
        r == duration_of(secs, nanos),
{
    Duration::new(secs, nanos)
}

/// The length of a lap that ends `now` nanoseconds after the start, the
/// previous lap having ended `before` nanoseconds after it.
pub fn lap_nanos(before: u128, now: u128) -> (r: u128)
    ensures
        r == if now >= before {
            now - before
        } else {
            before - now
        },
{
    if now >= before {
        now - before
    } else {
        before - now
    }
}

/// A stopwatch: when it started, and how long after the start its last lap
/// ended.
pub struct DebugTimer {
    _instant: Instant,
    _duration: u128,
}

impl DebugTimer {
    #[verifier::type_invariant]
    spec fn inv(&self) -> bool {
        self._duration <= max_duration_nanos()
    }

    /// When the stopwatch started.
    pub closed spec fn start(&self) -> Instant {
        self._instant
    }

    /// Nanoseconds from the start to the end of the last lap.
    pub closed spec fn last_lap_end(&self) -> u128 {
        self._duration
    }

    /// A stopwatch started now, with no lap taken.
    pub fn new() -> (r: Self)
        ensures
            r.last_lap_end() == 0,
    {
        Self { _instant: instant_now(), _duration: 0 }
    }

    /// Ends a lap now and returns its length: the time between the end of
    /// the previous lap (or the start) and now.  The new end of the last
    /// lap is the time elapsed since the start, read from the clock.
    pub fn lap(&mut self) -> (r: Duration)
        ensures
            final(self).start() == old(self).start(),
            r == duration_of_nanos(
                nanos_between(old(self).last_lap_end(), final(self).last_lap_end()),
            ),
    {
        proof {
            use_type_invariant(&*self);
        }
        let now: u128 = as_nanos(&elapsed(&self._instant));
        let d: u128 = lap_nanos(self._duration, now);
        self._duration = now;
        let secs: u128 = d / NANOS_PER_SEC;
        let nanos: u128 = d % NANOS_PER_SEC;
        assert(secs <= u64::MAX) by (nonlinear_arith)
            requires
                d <= max_duration_nanos(),
                secs == d / 1_000_000_000,
        ;
        duration_new(secs as u64, nanos as u32)
    }
}

/// The total length of the laps whose ends, in nanoseconds after the
/// start, are `ends` (the first entry being where the first lap began).
pub open spec fn laps_total(ends: Seq<u128>) -> int
    decreases ends.len(),
{
    if ends.len() <= 1 {
        0
    } else {
        laps_total(ends.drop_last()) + nanos_between(ends[ends.len() - 2], ends.last())
    }
}

/// Laps taken at clock readings that never go back add up to the time
/// from the first reading to the last: each lap is the distance between
/// the previous lap's end and its own, and those distances telescope.
pub proof fn lemma_laps_add_up(ends: Seq<u128>)
    requires
        ends.len() >= 1,
        forall|k: int| 0 < k < ends.len() ==> ends[k - 1] <= #[trigger] ends[k],
    ensures
        laps_total(ends) == ends.last() - ends[0],
    decreases ends.len(),
{
    if ends.len() > 1 {
        let init = ends.drop_last();
        assert forall|k: int| 0 < k < init.len() implies init[k - 1] <= #[trigger] init[k] by {
            assert(init[k] == ends[k] && init[k - 1] == ends[k - 1]);
        }
        lemma_laps_add_up(init);
        assert(ends[ends.len() - 2] <= ends[ends.len() - 1]);
    }
}

} // verus!
