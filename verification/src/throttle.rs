//! Debouncing console events: a value passes only when more than the
//! throttler's interval has gone by since the last value that passed.
use vstd::prelude::*;
use std::time::{Duration, Instant};

verus! {

#[verifier::external_type_specification]
#[verifier::external_body]
pub struct ExInstant(Instant);

/// The current instant (`Instant::now`). Nothing is claimed of it: it depends
/// on the clock.
#[verifier::external_body]
fn instant_now() -> Instant {
    Instant::now()
}

/// Time passed since `t` (`Instant::elapsed`). Nothing is claimed of it: it
/// depends on the clock.
#[verifier::external_body]
fn time_since(t: &Instant) -> Duration {
    t.elapsed()
}

/// Whole nanoseconds in `d` (`Duration::as_nanos`). The value is not stated:
/// a `Duration` is opaque here.
#[verifier::external_body]
fn duration_nanos(d: Duration) -> u128 {
    d.as_nanos()
}

/// Lets a value through at most once per interval.
pub struct Throttler {
    interval_nanos: u128,
    last: Option<Instant>,
}

/// A value offered `elapsed` nanoseconds after the last one that passed (or
/// with none passed yet) passes a throttler of interval `interval` nanoseconds.
pub open spec fn passes(elapsed: Option<u128>, interval: u128) -> bool {
    match elapsed {
        Some(e) => e > interval,
        None => true,
    }
}

/// A value passes exactly when more than the interval has gone by since the
/// last one that passed, however long ago that was, or when none has passed.
pub proof fn lemma_passes_after_interval(elapsed: u128, interval: u128)
    ensures
        passes(Some(elapsed), interval) <==> elapsed > interval,
        passes(None, interval),
{
}

impl Throttler {
    /// The interval, in nanoseconds.
    pub closed spec fn interval_spec(&self) -> u128 {
        self.interval_nanos
    }

    /// The instant the last value passed, if any.
    pub closed spec fn last_spec(&self) -> Option<Instant> {
        self.last
    }

    /// A throttler with an interval of `interval_nanos` nanoseconds that lets
    /// the first value through: no value has passed it yet.
    pub fn new(interval_nanos: u128) -> (r: Throttler)
        ensures
            r.interval_spec() == interval_nanos,
            r.last_spec() is None,
    {
        Throttler { interval_nanos, last: None }
    }

    /// Passes `val` when more than the interval has gone by since the last
    /// value that passed, and then restarts the interval.
    pub fn debounce<T>(&mut self, val: T) -> (r: Option<T>)
        ensures
            final(self).interval_spec() == old(self).interval_spec(),
            old(self).last_spec() is None ==> r == Some(val),
            r is Some ==> r == Some(val) && final(self).last_spec() is Some,
            r is None ==> *final(self) == *old(self),
    {
        let elapsed = match &self.last {
            Some(t) => Some(duration_nanos(time_since(t))),
            None => None,
        };
        let now = instant_now();
        self.debounce_at(elapsed, now, val)
    }

    /// Passes `val`, offered `elapsed` nanoseconds after the last value that
    /// passed (`None`: none has), when that is more than the interval; the
    /// interval then restarts at `now`.
    pub fn debounce_at<T>(&mut self, elapsed: Option<u128>, now: Instant, val: T) -> (r: Option<T>)
        ensures
            final(self).interval_spec() == old(self).interval_spec(),
            passes(elapsed, old(self).interval_spec()) ==> r == Some(val) && final(self).last_spec()
                == Some(now),
            !passes(elapsed, old(self).interval_spec()) ==> r is None && final(self).last_spec()
                == old(self).last_spec(),
            elapsed is None ==> r == Some(val),
            elapsed matches Some(e) ==> (r is Some <==> e > old(self).interval_spec()),
    {
        let pass = match elapsed {
            Some(e) => e > self.interval_nanos,
            None => true,
        };
        if pass {
            self.last = Some(now);
            Some(val)
        } else {
            None
        }
    }
}

} // verus!
