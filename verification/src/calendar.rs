//! Calendar dates and UTC timestamps, and the bucketing rule that assigns a
//! measurement to its per-device-per-hour consumption bucket.
use vstd::prelude::*;

verus! {

/// A calendar date (UTC, proleptic Gregorian).
#[derive(Clone, Copy, PartialEq, Eq, Structural, Debug)]
pub struct Date {
    pub year: u16,
    pub month: u8,
    pub day: u8,
}

/// A UTC instant with one-second resolution.
#[derive(Clone, Copy, PartialEq, Eq, Structural, Debug)]
pub struct Timestamp {
    pub date: Date,
    pub hour: u8,
    pub minute: u8,
    pub second: u8,
}

pub open spec fn is_leap_year(y: int) -> bool {
    (y % 4 == 0 && y % 100 != 0) || y % 400 == 0
}

pub open spec fn spec_days_in_month(y: int, m: int) -> int {
    if m == 2 {
        if is_leap_year(y) {
            29
        } else {
            28
        }
    } else if m == 4 || m == 6 || m == 9 || m == 11 {
        30
    } else {
        31
    }
}

/// The number of days in month `m` of year `y`.
pub fn days_in_month(y: u16, m: u8) -> (r: u8)
    requires
        1 <= m <= 12,
    ensures
        r == spec_days_in_month(y as int, m as int),
{
    if m == 2 {
        let leap: bool = (y % 4 == 0 && y % 100 != 0) || y % 400 == 0;
        if leap {
            29
        } else {
            28
        }
    } else if m == 4 || m == 6 || m == 9 || m == 11 {
        30
    } else {
        31
    }
}

impl Date {
    /// A real calendar date: month in range and day in range for that month.
    pub open spec fn wf(self) -> bool {
        1 <= self.year <= 9999 && 1 <= self.month <= 12 && 1 <= self.day
            <= spec_days_in_month(self.year as int, self.month as int)
    }

    /// Decides `wf` executably.
    pub fn valid(&self) -> (r: bool)
        ensures
            r == self.wf(),
    {
        1 <= self.year && self.year <= 9999 && 1 <= self.month && self.month <= 12 && 1 <= self.day
            && self.day <= days_in_month(self.year, self.month)
    }
}

impl Timestamp {
    /// A real instant: valid date and in-range time-of-day fields.
    pub open spec fn wf(self) -> bool {
        self.date.wf() && self.hour < 24 && self.minute < 60 && self.second < 60
    }

    /// Decides `wf` executably.
    pub fn valid(&self) -> (r: bool)
        ensures
            r == self.wf(),
    {
        self.date.valid() && self.hour < 24 && self.minute < 60 && self.second < 60
    }
}

/// The key of an hourly consumption bucket: a calendar day and an hour of
/// that day, both in UTC.
#[derive(Clone, Copy, PartialEq, Eq, Structural, Debug)]
pub struct HourBucket {
    pub day: Date,
    pub hour: u8,
}

impl HourBucket {
    /// The bucketing rule: the bucket of a measurement is the measurement's
    /// calendar day and hour, taken in UTC with no timezone conversion.
    pub fn from_timestamp(ts: Timestamp) -> (r: HourBucket)
        ensures
            r.day == ts.date,
            r.hour == ts.hour,
    {
        HourBucket { day: ts.date, hour: ts.hour }
    }
}

} // verus!
