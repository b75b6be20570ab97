//! Ages in days: how an elapsed time becomes a whole number of days, and what
//! stands in for a time stamp that could not be read.

use vstd::prelude::*;

verus! {

/// Seconds in one day.
pub const SECONDS_IN_DAY: u64 = 86_400;

/// Nanoseconds in one second.
pub const NANOS_IN_SECOND: u128 = 1_000_000_000;

/// Nanoseconds in one day.
pub const NANOS_IN_DAY: u128 = 86_400_000_000_000;

/// The number shown for a time stamp that could not be read.
pub const UNAVAILABLE: i128 = -1;

/// Nanoseconds in one day.
pub open spec fn day_nanos() -> nat {
    86_400_000_000_000
}

/// The length in nanoseconds of a span given as whole seconds and additional
/// nanoseconds.
pub open spec fn total_nanos(secs: u64, nanos: u32) -> nat {
    secs as nat * 1_000_000_000 + nanos as nat
}

/// The whole number of days nearest to a span of `t` nanoseconds; a span that
/// ends exactly half way between two days counts as the later one.
pub open spec fn nearest_day(t: nat) -> nat {
    (t + day_nanos() / 2) / day_nanos()
}

/// Converts an elapsed time, given as whole seconds and additional
/// nanoseconds, to days, rounded to the nearest day.
pub fn duration_to_days(secs: u64, nanos: u32) -> (days: u64)
    ensures
        days as nat == nearest_day(total_nanos(secs, nanos)),
{
    let total: u128 = secs as u128 * NANOS_IN_SECOND + nanos as u128;
    let days: u128 = (total + NANOS_IN_DAY / 2) / NANOS_IN_DAY;
    days as u64
}

/// Rounding to days picks the nearest whole day: twice the span lies within
/// one day of twice the result, the upper end left out. A span of no length is
/// zero days old.
pub proof fn lemma_days_nearest(secs: u64, nanos: u32)
    ensures
        ({
            let t = total_nanos(secs, nanos);
            let n = nearest_day(t);
            2 * n * day_nanos() - day_nanos() <= 2 * t < 2 * n * day_nanos() + day_nanos()
        }),
        nearest_day(total_nanos(0, 0)) == 0,
{
}

/// With fewer than a second's worth of additional nanoseconds, only the whole
/// seconds decide the day: the result is the seconds plus half a day, divided
/// by the seconds of a day.
pub proof fn lemma_days_by_seconds(secs: u64, nanos: u32)
    requires
        nanos < 1_000_000_000,
    ensures
        nearest_day(total_nanos(secs, nanos)) == (secs as nat + SECONDS_IN_DAY as nat / 2)
            / SECONDS_IN_DAY as nat,
{
    let q = (secs as nat + 43_200) / 86_400;
    let r = (secs as nat + 43_200) % 86_400;
    let t = total_nanos(secs, nanos) + day_nanos() / 2;
    assert(secs as nat + 43_200 == q * 86_400 + r);
    assert(t == q * day_nanos() + (r * 1_000_000_000 + nanos as nat)) by (nonlinear_arith)
        requires
            t == secs as nat * 1_000_000_000 + nanos as nat + 43_200_000_000_000,
            secs as nat + 43_200 == q * 86_400 + r,
            day_nanos() == 86_400_000_000_000,
    ;
    let rest = r * 1_000_000_000 + nanos as nat;
    assert(rest < day_nanos());
    assert(t / day_nanos() == q) by (nonlinear_arith)
        requires
            t == q * day_nanos() + rest,
            rest < day_nanos(),
            day_nanos() > 0,
    ;
}

/// What was learnt of one time stamp of an entry.
#[derive(Clone, Copy, Debug, PartialEq, Eq, Structural)]
pub enum Stamp {
    /// The time stamp could not be read.
    Unavailable,
    /// The time stamp lies after the moment of the survey.
    Ahead,
    /// The time stamp lies this far before the moment of the survey.
    Elapsed { secs: u64, nanos: u32 },
}

/// The age of an entry by one of its time stamps.
#[derive(Clone, Copy, Debug, PartialEq, Eq, Structural)]
pub enum Age {
    /// The time stamp could not be read.
    Unavailable,
    /// Days since the time stamp, rounded to the nearest day.
    Days(u64),
}

/// The age that a time stamp stands for: none where it could not be read, zero
/// days where it lies ahead, else its elapsed time rounded to days.
pub open spec fn age_model(stamp: Stamp) -> Age {
    match stamp {
        Stamp::Unavailable => Age::Unavailable,
        Stamp::Ahead => Age::Days(0),
        Stamp::Elapsed { secs, nanos } => Age::Days(nearest_day(total_nanos(secs, nanos)) as u64),
    }
}

/// The number shown for an age: the days, or minus one where there is none.
pub open spec fn number_model(age: Age) -> int {
    match age {
        Age::Unavailable => -1,
        Age::Days(days) => days as int,
    }
}

/// Computes the age that a time stamp stands for.
pub fn age_of(stamp: Stamp) -> (age: Age)
    ensures
        age == age_model(stamp),
{
    match stamp {
        Stamp::Unavailable => Age::Unavailable,
        Stamp::Ahead => Age::Days(0),
        Stamp::Elapsed { secs, nanos } => Age::Days(duration_to_days(secs, nanos)),
    }
}

impl Age {
    /// The number shown for this age: the days, or minus one where the time
    /// stamp could not be read.
    pub fn number(&self) -> (n: i128)
        ensures
            n as int == number_model(*self),
    {
        match self {
            Age::Unavailable => UNAVAILABLE,
            Age::Days(days) => *days as i128,
        }
    }
}

/// An age is never negative where the time stamp was read, and a time stamp
/// that was not read is shown as minus one.
pub proof fn lemma_age_number(stamp: Stamp)
    ensures
        stamp is Unavailable <==> number_model(age_model(stamp)) == -1,
        !(stamp is Unavailable) ==> number_model(age_model(stamp)) >= 0,
{
}

} // verus!
