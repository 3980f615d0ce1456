//! Rate computation from cumulative counters.
//!
//! A counter stream reports a monotonically non-decreasing cumulative value
//! (for example, total bytes received since boot) together with the instant it
//! was read. The estimator keeps the previous sample and turns the current one
//! into a rate in units per second. A decreasing counter (reset or wraparound)
//! clamps the delta to zero instead of underflowing, and a zero elapsed time
//! is floored to one microsecond instead of dividing by zero.

use vstd::prelude::*;

verus! {

/// One reading of a cumulative counter: its value and the capture instant in
/// microseconds of monotonic time.
#[derive(Clone, Copy, PartialEq, Eq, Structural, Debug)]
pub struct CounterSample {
    pub value: u64,
    pub time_micros: u64,
}

/// The change of the cumulative counter, clamped to zero when it decreased.
pub open spec fn counter_delta(prev_value: u64, curr_value: u64) -> int {
    if curr_value >= prev_value {
        curr_value - prev_value
    } else {
        0
    }
}

/// Elapsed microseconds between two samples, floored to one so a rate is
/// always well defined.
pub open spec fn elapsed_micros_floor(prev_micros: u64, curr_micros: u64) -> int {
    if curr_micros > prev_micros {
        curr_micros - prev_micros
    } else {
        1
    }
}

/// Units per second between two counter samples: the clamped delta over the
/// floored elapsed time, saturated at `u64::MAX`.
pub open spec fn rate_per_sec(prev: CounterSample, curr: CounterSample) -> int {
    let r = counter_delta(prev.value, curr.value) * 1_000_000
        / elapsed_micros_floor(prev.time_micros, curr.time_micros);
    if r > u64::MAX {
        u64::MAX as int
    } else {
        r
    }
}

/// Carries the one piece of state a counter stream needs: the previous sample,
/// absent before the first tick.
pub struct RateEstimator {
    prev: Option<CounterSample>,
}

impl RateEstimator {
    /// The retained previous sample.
    pub closed spec fn spec_prev(&self) -> Option<CounterSample> {
        self.prev
    }

    /// A fresh estimator that has not seen a sample yet.
    pub fn new() -> (r: Self)
        ensures
            r.spec_prev() is None,
    {
        RateEstimator { prev: None }
    }

    /// The retained previous sample, if any.
    pub fn prev(&self) -> (r: Option<CounterSample>)
        ensures
            r == self.spec_prev(),
    {
        self.prev
    }

    /// Feeds the current sample and returns the rate since the previous one,
    /// or zero on the first tick. The current sample always replaces the
    /// stored previous one, whatever the outcome.
    pub fn update(&mut self, value: u64, time_micros: u64) -> (rate: u64)
        ensures
            final(self).spec_prev() == Some(CounterSample { value, time_micros }),
            rate == match old(self).spec_prev() {
                Some(p) => rate_per_sec(p, CounterSample { value, time_micros }),
                None => 0int,
            },
    {
        let rate = match self.prev {
            Some(p) => {
                let delta = if value >= p.value {
                    value - p.value
                } else {
                    0
                };
                let elapsed = if time_micros > p.time_micros {
                    time_micros - p.time_micros
                } else {
                    1
                };
                let scaled: u128 = (delta as u128) * 1_000_000u128;
                let q: u128 = scaled / (elapsed as u128);
                if q > u64::MAX as u128 {
                    u64::MAX
                } else {
                    q as u64
                }
            },
            None => 0,
        };
        self.prev = Some(CounterSample { value, time_micros });
        rate
    }
}

} // verus!
