use std::time::Duration;

use vstd::prelude::*;

verus! {

/// Number of seconds in a minute.
pub const SECS_PER_MIN: u64 = 60;

/// The period with which the daemon rotates wallpapers (or quotes).
pub struct Scheduler {
    interval_secs: u64,
}

impl Scheduler {
    /// The interval, in seconds, that `interval_mins` stands for: at least one minute.
    pub open spec fn spec_interval_secs(interval_mins: u32) -> nat {
        (if interval_mins == 0 { 1nat } else { interval_mins as nat }) * 60
    }

    pub closed spec fn view_secs(&self) -> nat {
        self.interval_secs as nat
    }

    /// A scheduler whose interval is `interval_mins` minutes, or one minute when that is zero.
    pub fn new(interval_mins: u32) -> (s: Self)
        ensures
            s.view_secs() == Self::spec_interval_secs(interval_mins),
    {
        let mins: u64 = if interval_mins == 0 { 1 } else { interval_mins as u64 };
        Scheduler { interval_secs: mins * SECS_PER_MIN }
    }

    /// The interval, as a `Duration` of `interval_secs()` seconds.
    pub fn interval(&self) -> (d: Duration)
        ensures
            d == duration_of_secs(self.view_secs() as u64),
    {
        duration_from_secs(self.interval_secs)
    }

    /// The interval in whole seconds.
    pub fn interval_secs(&self) -> (secs: u64)
        ensures
            secs == self.view_secs(),
    {
        self.interval_secs
    }
}

/// Every interval is at least one minute long, and a positive number of minutes is kept as
/// it is.
pub proof fn lemma_interval_at_least_a_minute(interval_mins: u32)
    ensures
        Scheduler::spec_interval_secs(interval_mins) >= 60,
        interval_mins > 0 ==> Scheduler::spec_interval_secs(interval_mins) == interval_mins * 60,
{
}

impl Default for Scheduler {
    /// A scheduler of one hour.
    fn default() -> (s: Self)
        ensures
            s.view_secs() == 3600,
    {
        Scheduler::new(60)
    }
}

/// The `Duration` that `std::time::Duration::from_secs(secs)` makes: `secs` seconds and no
/// nanoseconds.
pub uninterp spec fn duration_of_secs(secs: u64) -> Duration;

/// `std::time::Duration::from_secs`.
///
/// Its result is named: the same number of seconds gives the same `Duration`. Verus holds
/// `Duration` opaque, so no clause says more of it (such as what `as_secs` gives back).
#[verifier::external_body]
fn duration_from_secs(secs: u64) -> (d: Duration)
    ensures
        d == duration_of_secs(secs),
{
    Duration::from_secs(secs)
}

} // verus!
