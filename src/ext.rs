use vstd::prelude::*;

use crate::duration::Duration;
use crate::render::{decimal, push_decimal};
use crate::unit::TimeUnit;

verus! {

/// Writes a duration back as a compact human-readable expression.
pub trait HumanFormat {
    /// The text that the value is written as.
    spec fn human_spec(&self) -> Seq<char>;

    fn human_format(&self) -> (r: String)
        ensures
            r@ == self.human_spec(),
    ;
}

pub const ONE_MINUTE_SECOND: u64 = 60;

pub const ONE_HOUR_SECOND: u64 = 60 * ONE_MINUTE_SECOND;

pub const ONE_DAY_SECOND: u64 = 24 * ONE_HOUR_SECOND;

pub const ONE_WEEK_SECOND: u64 = 7 * ONE_DAY_SECOND;

pub const ONE_MONTH_SECOND: u64 = 30 * ONE_DAY_SECOND;

pub const ONE_YEAR_SECOND: u64 = 365 * ONE_DAY_SECOND;

/// The abbreviation a unit is written with.
pub open spec fn unit_text(u: TimeUnit) -> Seq<char> {
    match u {
        TimeUnit::Year => "y"@,
        TimeUnit::Month => "mon"@,
        TimeUnit::Week => "w"@,
        TimeUnit::Day => "d"@,
        TimeUnit::Hour => "h"@,
        TimeUnit::Minute => "min"@,
        TimeUnit::Second => "s"@,
        TimeUnit::MilliSecond => "ms"@,
        TimeUnit::MicroSecond => "µs"@,
        TimeUnit::NanoSecond => "ns"@,
    }
}

/// `text` followed by `val` of unit `u`, separated by a space from what came before;
/// nothing is added for a zero `val`.
pub open spec fn accrued(text: Seq<char>, val: nat, u: TimeUnit) -> Seq<char> {
    if val == 0 {
        text
    } else {
        (if text.len() > 0 {
            text + " "@
        } else {
            text
        }) + decimal(val) + unit_text(u)
    }
}

/// `seconds` and `nanos` split into years, months, weeks, days, hours, minutes and
/// seconds, and milli-, micro- and nanoseconds, each written with its unit, the zero
/// ones left out. A zero duration is `0s`.
pub open spec fn human_text(seconds: nat, nanos: nat) -> Seq<char> {
    if seconds == 0 && nanos == 0 {
        "0s"@
    } else {
        let year = seconds / 31_536_000;
        let ydays = seconds % 31_536_000;
        let month = ydays / 2_592_000;
        let mdays = ydays % 2_592_000;
        let week = mdays / 604_800;
        let wdays = mdays % 604_800;
        let day = wdays / 86_400;
        let day_secs = wdays % 86_400;
        let t = accrued(Seq::empty(), year, TimeUnit::Year);
        let t = accrued(t, month, TimeUnit::Month);
        let t = accrued(t, week, TimeUnit::Week);
        let t = accrued(t, day, TimeUnit::Day);
        let t = accrued(t, day_secs / 3600, TimeUnit::Hour);
        let t = accrued(t, day_secs % 3600 / 60, TimeUnit::Minute);
        let t = accrued(t, day_secs % 60, TimeUnit::Second);
        let t = accrued(t, nanos / 1_000_000, TimeUnit::MilliSecond);
        let t = accrued(t, nanos / 1000 % 1000, TimeUnit::MicroSecond);
        accrued(t, nanos % 1000, TimeUnit::NanoSecond)
    }
}

impl TimeUnit {
    /// The abbreviation this unit is written with.
    pub fn abbr(&self) -> (r: &'static str)
        ensures
            r@ == unit_text(*self),
    {
        match self {
            TimeUnit::Year => "y",
            TimeUnit::Month => "mon",
            TimeUnit::Week => "w",
            TimeUnit::Day => "d",
            TimeUnit::Hour => "h",
            TimeUnit::Minute => "min",
            TimeUnit::Second => "s",
            TimeUnit::MilliSecond => "ms",
            TimeUnit::MicroSecond => "µs",
            TimeUnit::NanoSecond => "ns",
        }
    }
}

/// Appends `val` of `unit` to `format`, after a space unless `format` is empty; a zero
/// `val` adds nothing.
pub fn accrual(val: u64, unit: TimeUnit, format: &mut String)
    ensures
        final(format)@ == accrued(old(format)@, val as nat, unit),
{
    if val > 0 {
        if format.unicode_len() > 0 {
            format.append(" ");
        }
        push_decimal(format, val as u128);
        format.append(unit.abbr());
    }
}

/// Writes `seconds` and `nanos` as a human-readable expression.
pub fn format_inner(seconds: u64, nanos: u32) -> (r: String)
    ensures
        r@ == human_text(seconds as nat, nanos as nat),
{
    if seconds == 0 && nanos == 0 {
        return "0s".to_string();
    }
    let year = seconds / ONE_YEAR_SECOND;
    let ydays = seconds % ONE_YEAR_SECOND;
    let month = ydays / ONE_MONTH_SECOND;
    let mdays = ydays % ONE_MONTH_SECOND;
    let week = mdays / ONE_WEEK_SECOND;
    let wdays = mdays % ONE_WEEK_SECOND;
    let day = wdays / ONE_DAY_SECOND;
    let day_secs = wdays % ONE_DAY_SECOND;
    let hour = day_secs / ONE_HOUR_SECOND;
    let minutes = day_secs % ONE_HOUR_SECOND / ONE_MINUTE_SECOND;
    let second = day_secs % ONE_MINUTE_SECOND;
    let millis = nanos / 1_000_000;
    let micros = nanos / 1000 % 1000;
    let nano = nanos % 1000;
    let mut format = String::new();
    accrual(year, TimeUnit::Year, &mut format);
    accrual(month, TimeUnit::Month, &mut format);
    accrual(week, TimeUnit::Week, &mut format);
    accrual(day, TimeUnit::Day, &mut format);
    accrual(hour, TimeUnit::Hour, &mut format);
    accrual(minutes, TimeUnit::Minute, &mut format);
    accrual(second, TimeUnit::Second, &mut format);
    accrual(millis as u64, TimeUnit::MilliSecond, &mut format);
    accrual(micros as u64, TimeUnit::MicroSecond, &mut format);
    accrual(nano as u64, TimeUnit::NanoSecond, &mut format);
    format
}

impl HumanFormat for Duration {
    /// The whole seconds and the nanoseconds below one second, written by `human_text`.
    open spec fn human_spec(&self) -> Seq<char> {
        human_text(self@ / 1_000_000_000, self@ % 1_000_000_000)
    }

    fn human_format(&self) -> (r: String) {
        format_inner(self.as_secs(), self.subsec_nanos())
    }
}

} // verus!
