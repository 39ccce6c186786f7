//! The three time windows of the temporal baseline layers.
use crate::time::{instant_minus_seconds, shifted_back, Timestamp};
use vstd::prelude::*;

verus! {

/// Seconds in an hour and in a day.
pub open spec fn secs_per_hour() -> int {
    3600
}

pub open spec fn secs_per_day() -> int {
    86400
}

/// Largest number of whole seconds a `chrono::TimeDelta` holds (`i64::MAX` milliseconds).
pub open spec fn max_delta_secs() -> int {
    9223372036854775
}

/// Lengths of the short-term (hours), medium-term (days) and long-term (days)
/// baseline windows.
#[derive(Clone, Copy, Debug, PartialEq, Eq, Structural)]
pub struct TemporalWindows {
    pub short_term_hours: i64,
    pub medium_term_days: i64,
    pub long_term_days: i64,
}

/// The start of a window of `secs` seconds that ends at `now`, where it can be
/// computed without a panic: the length fits in a `TimeDelta` and the start is
/// an instant `chrono` can hold.
pub open spec fn window_start(now: Timestamp, secs: int) -> Option<Timestamp> {
    if -max_delta_secs() <= secs <= max_delta_secs() {
        shifted_back(now, secs)
    } else {
        None
    }
}

impl TemporalWindows {
    /// Seconds in the short-term window.
    pub open spec fn short_secs(self) -> int {
        self.short_term_hours * secs_per_hour()
    }

    /// Seconds in the medium-term window.
    pub open spec fn medium_secs(self) -> int {
        self.medium_term_days * secs_per_day()
    }

    /// Seconds in the long-term window.
    pub open spec fn long_secs(self) -> int {
        self.long_term_days * secs_per_day()
    }

    /// Short 72 hours, medium 30 days, long 365 days.
    pub fn new() -> (r: TemporalWindows)
        ensures
            r.short_term_hours == 72,
            r.medium_term_days == 30,
            r.long_term_days == 365,
    {
        TemporalWindows { short_term_hours: 72, medium_term_days: 30, long_term_days: 365 }
    }

    /// `now` minus the short-term window.
    pub fn short_term_since(&self, now: Timestamp) -> (r: Timestamp)
        requires
            now.valid(),
            window_start(now, self.short_secs()) is Some,
        ensures
            window_start(now, self.short_secs()) == Some(r),
    {
        let secs = self.short_term_hours as i128 * 3600;
        let r = instant_minus_seconds(now, secs as i64);
        r.unwrap()
    }

    /// `now` minus the medium-term window.
    pub fn medium_term_since(&self, now: Timestamp) -> (r: Timestamp)
        requires
            now.valid(),
            window_start(now, self.medium_secs()) is Some,
        ensures
            window_start(now, self.medium_secs()) == Some(r),
    {
        let secs = self.medium_term_days as i128 * 86400;
        let r = instant_minus_seconds(now, secs as i64);
        r.unwrap()
    }

    /// `now` minus the long-term window.
    pub fn long_term_since(&self, now: Timestamp) -> (r: Timestamp)
        requires
            now.valid(),
            window_start(now, self.long_secs()) is Some,
        ensures
            window_start(now, self.long_secs()) == Some(r),
    {
        let secs = self.long_term_days as i128 * 86400;
        let r = instant_minus_seconds(now, secs as i64);
        r.unwrap()
    }
}

impl Default for TemporalWindows {
    fn default() -> (r: TemporalWindows)
        ensures
            r.short_term_hours == 72,
            r.medium_term_days == 30,
            r.long_term_days == 365,
    {
        TemporalWindows::new()
    }
}

/// A longer window starts no later than a shorter one that ends at the same instant.
pub proof fn lemma_window_start_monotone(now: Timestamp, shorter: int, longer: int)
    requires
        now.valid(),
        shorter <= longer,
        window_start(now, shorter) is Some,
        window_start(now, longer) is Some,
    ensures
        window_start(now, shorter).unwrap().spec_at_or_after(window_start(now, longer).unwrap()),
{
}

/// Windows whose lengths are ordered (short ≤ medium ≤ long) are nested:
/// the long-term window starts no later than the medium-term one, which starts
/// no later than the short-term one.
pub proof fn law_windows_nest(w: TemporalWindows, now: Timestamp)
    requires
        now.valid(),
        w.short_secs() <= w.medium_secs() <= w.long_secs(),
        window_start(now, w.short_secs()) is Some,
        window_start(now, w.medium_secs()) is Some,
        window_start(now, w.long_secs()) is Some,
    ensures
        window_start(now, w.short_secs()).unwrap().spec_at_or_after(
            window_start(now, w.medium_secs()).unwrap(),
        ),
        window_start(now, w.medium_secs()).unwrap().spec_at_or_after(
            window_start(now, w.long_secs()).unwrap(),
        ),
{
    lemma_window_start_monotone(now, w.short_secs(), w.medium_secs());
    lemma_window_start_monotone(now, w.medium_secs(), w.long_secs());
}

} // verus!
