use vstd::prelude::*;

use crate::text::{lower_range, lower_seq, same_chars};

verus! {

pub const ONE_MICROSECOND_NANOSECOND: u64 = 1000;

pub const ONE_MILLISECOND_NANOSECOND: u64 = 1000 * ONE_MICROSECOND_NANOSECOND;

pub const ONE_SECOND_NANOSECOND: u64 = 1000 * ONE_MILLISECOND_NANOSECOND;

pub const ONE_MINUTE_NANOSECOND: u64 = 60 * ONE_SECOND_NANOSECOND;

pub const ONE_HOUR_NANOSECOND: u64 = 60 * ONE_MINUTE_NANOSECOND;

pub const ONE_DAY_NANOSECOND: u64 = 24 * ONE_HOUR_NANOSECOND;

pub const ONE_WEEK_NANOSECOND: u64 = 7 * ONE_DAY_NANOSECOND;

pub const ONE_MONTH_NANOSECOND: u64 = 30 * ONE_DAY_NANOSECOND;

pub const ONE_YEAR_NANOSECOND: u64 = 365 * ONE_DAY_NANOSECOND;

/// The units a term can carry. A term without a unit is in seconds.
#[derive(Debug, Clone, Copy, PartialEq, Eq, Structural)]
pub enum TimeUnit {
    Year,
    Month,
    Week,
    Day,
    Hour,
    Minute,
    Second,
    MilliSecond,
    MicroSecond,
    NanoSecond,
}

/// Nanoseconds in one unit: a month is 30 days and a year 365 days.
pub open spec fn nanos_per_unit(u: TimeUnit) -> nat {
    match u {
        TimeUnit::Year => 365 * 24 * 3600 * 1_000_000_000,
        TimeUnit::Month => 30 * 24 * 3600 * 1_000_000_000,
        TimeUnit::Week => 7 * 24 * 3600 * 1_000_000_000,
        TimeUnit::Day => 24 * 3600 * 1_000_000_000,
        TimeUnit::Hour => 3600 * 1_000_000_000,
        TimeUnit::Minute => 60 * 1_000_000_000,
        TimeUnit::Second => 1_000_000_000,
        TimeUnit::MilliSecond => 1_000_000,
        TimeUnit::MicroSecond => 1000,
        TimeUnit::NanoSecond => 1,
    }
}

impl Default for TimeUnit {
    fn default() -> (r: TimeUnit)
        ensures
            r == TimeUnit::Second,
    {
        TimeUnit::Second
    }
}

impl TimeUnit {
    /// Nanoseconds in one of this unit.
    pub fn nanos(&self) -> (r: u64)
        ensures
            r == nanos_per_unit(*self),
    {
        match self {
            TimeUnit::Year => ONE_YEAR_NANOSECOND,
            TimeUnit::Month => ONE_MONTH_NANOSECOND,
            TimeUnit::Week => ONE_WEEK_NANOSECOND,
            TimeUnit::Day => ONE_DAY_NANOSECOND,
            TimeUnit::Hour => ONE_HOUR_NANOSECOND,
            TimeUnit::Minute => ONE_MINUTE_NANOSECOND,
            TimeUnit::Second => ONE_SECOND_NANOSECOND,
            TimeUnit::MilliSecond => ONE_MILLISECOND_NANOSECOND,
            TimeUnit::MicroSecond => ONE_MICROSECOND_NANOSECOND,
            TimeUnit::NanoSecond => 1,
        }
    }
}

/// The unit that a lower-case word names, if any.
pub open spec fn unit_named(w: Seq<char>) -> Option<TimeUnit> {
    if w == "y"@ || w == "year"@ || w == "years"@ {
        Some(TimeUnit::Year)
    } else if w == "mon"@ || w == "month"@ || w == "months"@ {
        Some(TimeUnit::Month)
    } else if w == "w"@ || w == "week"@ || w == "weeks"@ {
        Some(TimeUnit::Week)
    } else if w == "d"@ || w == "day"@ || w == "days"@ {
        Some(TimeUnit::Day)
    } else if w == "h"@ || w == "hr"@ || w == "hour"@ || w == "hours"@ {
        Some(TimeUnit::Hour)
    } else if w == "m"@ || w == "min"@ || w == "minute"@ || w == "minutes"@ {
        Some(TimeUnit::Minute)
    } else if w == "s"@ || w == "sec"@ || w == "second"@ || w == "seconds"@ {
        Some(TimeUnit::Second)
    } else if w == "ms"@ || w == "msec"@ || w == "millisecond"@ || w == "milliseconds"@ {
        Some(TimeUnit::MilliSecond)
    } else if w == "µs"@ || w == "µsec"@ || w == "µsecond"@ || w == "us"@ || w == "usec"@
        || w == "usecond"@ || w == "microsecond"@ || w == "microseconds"@ {
        Some(TimeUnit::MicroSecond)
    } else if w == "ns"@ || w == "nsec"@ || w == "nanosecond"@ || w == "nanoseconds"@ {
        Some(TimeUnit::NanoSecond)
    } else {
        None
    }
}

/// The unit that a word names, in any mix of ASCII case.
pub open spec fn unit_of_word(w: Seq<char>) -> Option<TimeUnit> {
    unit_named(lower_seq(w))
}

/// Looks up the word `s[from..to]` in the unit table, ignoring ASCII case.
pub fn unit_of_range(s: &Vec<char>, from: usize, to: usize) -> (r: Option<TimeUnit>)
    requires
        from <= to <= s@.len(),
    ensures
        r == unit_of_word(s@.subrange(from as int, to as int)),
{
    let w = lower_range(s, from, to);
    if same_chars(&w, "y") || same_chars(&w, "year") || same_chars(&w, "years") {
        Some(TimeUnit::Year)
    } else if same_chars(&w, "mon") || same_chars(&w, "month") || same_chars(&w, "months") {
        Some(TimeUnit::Month)
    } else if same_chars(&w, "w") || same_chars(&w, "week") || same_chars(&w, "weeks") {
        Some(TimeUnit::Week)
    } else if same_chars(&w, "d") || same_chars(&w, "day") || same_chars(&w, "days") {
        Some(TimeUnit::Day)
    } else if same_chars(&w, "h")
        || same_chars(&w, "hr")
        || same_chars(&w, "hour")
        || same_chars(&w, "hours") {
        Some(TimeUnit::Hour)
    } else if same_chars(&w, "m")
        || same_chars(&w, "min")
        || same_chars(&w, "minute")
        || same_chars(&w, "minutes") {
        Some(TimeUnit::Minute)
    } else if same_chars(&w, "s")
        || same_chars(&w, "sec")
        || same_chars(&w, "second")
        || same_chars(&w, "seconds") {
        Some(TimeUnit::Second)
    } else if same_chars(&w, "ms")
        || same_chars(&w, "msec")
        || same_chars(&w, "millisecond")
        || same_chars(&w, "milliseconds") {
        Some(TimeUnit::MilliSecond)
    } else if same_chars(&w, "µs")
        || same_chars(&w, "µsec")
        || same_chars(&w, "µsecond")
        || same_chars(&w, "us")
        || same_chars(&w, "usec")
        || same_chars(&w, "usecond")
        || same_chars(&w, "microsecond")
        || same_chars(&w, "microseconds") {
        Some(TimeUnit::MicroSecond)
    } else if same_chars(&w, "ns")
        || same_chars(&w, "nsec")
        || same_chars(&w, "nanosecond")
        || same_chars(&w, "nanoseconds") {
        Some(TimeUnit::NanoSecond)
    } else {
        None
    }
}

} // verus!
