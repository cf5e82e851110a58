//! Wall-clock timestamps with a fixed UTC offset, at second precision.
//!
//! A timestamp carries the civil date and time as recorded (year 0 to
//! 9999) together with the offset from UTC in minutes. Instants are
//! compared and subtracted through their count of seconds since the
//! start of year 0 in UTC.

use vstd::prelude::*;
use crate::calendar::{spec_days_in_month, days_in_month};

verus! {

/// A civil date-time plus a UTC offset, the wall-clock reading of one
/// instant. `valid()` bounds every field.
#[derive(Clone, Copy, PartialEq, Eq, Structural, Debug)]
pub struct Timestamp {
    pub year: u16,
    pub month: u8,
    pub day: u8,
    pub hour: u8,
    pub minute: u8,
    pub second: u8,
    /// Offset of the wall clock from UTC, in minutes.
    pub offset_minutes: i16,
}

impl Timestamp {
    /// Every field lies in its calendar range; the offset is less than a
    /// full day in either direction, as an RFC 3339 offset is.
    pub open spec fn valid(self) -> bool {
        &&& self.year <= 9999
        &&& 1 <= self.month <= 12
        &&& 1 <= self.day <= spec_days_in_month(self.year as int, self.month as int)
        &&& self.hour < 24
        &&& self.minute < 60
        &&& self.second < 60
        &&& -1439 <= self.offset_minutes <= 1439
    }

    /// Seconds from 0000-01-01T00:00:00 UTC to this instant.
    pub open spec fn spec_epoch_seconds(self) -> int {
        spec_epoch_days(self.year as int, self.month as int, self.day as int) * 86400
            + self.hour * 3600 + self.minute * 60 + self.second
            - self.offset_minutes * 60
    }

    /// Seconds from 0000-01-01T00:00:00 UTC to this instant.
    pub fn epoch_seconds(&self) -> (r: i64)
        requires
            self.valid(),
        ensures
            r as int == self.spec_epoch_seconds(),
            -90000 <= r <= 400_000_000_000_000,
    {
        let days: i64 = epoch_days(self.year, self.month, self.day) as i64;
        days * 86400 + (self.hour as i64) * 3600 + (self.minute as i64) * 60
            + (self.second as i64) - (self.offset_minutes as i64) * 60
    }
}

/// Days in the years [0, year), proleptic Gregorian, year 0 counted as
/// a leap year.
pub open spec fn spec_days_before_year(year: int) -> int {
    if year <= 0 {
        0
    } else {
        365 * year + (year - 1) / 4 - (year - 1) / 100 + (year - 1) / 400 + 1
    }
}

/// Days in the months [1, month) of the given year.
pub open spec fn spec_days_before_month(year: int, month: int) -> int
    decreases month,
{
    if month <= 1 {
        0
    } else {
        spec_days_before_month(year, month - 1) + spec_days_in_month(year, month - 1)
    }
}

/// Days from 0000-01-01 to the given civil date.
pub open spec fn spec_epoch_days(year: int, month: int, day: int) -> int {
    spec_days_before_year(year) + spec_days_before_month(year, month) + day - 1
}

fn days_before_year(year: u16) -> (r: u32)
    requires
        year <= 9999,
    ensures
        r as int == spec_days_before_year(year as int),
        r <= 3652060,
{
    if year == 0 {
        0
    } else {
        let y: u32 = year as u32;
        365 * y + (y - 1) / 4 - (y - 1) / 100 + (y - 1) / 400 + 1
    }
}

fn days_before_month(year: u16, month: u8) -> (r: u32)
    requires
        1 <= month <= 12,
    ensures
        r as int == spec_days_before_month(year as int, month as int),
        r <= 372,
{
    let mut m: u8 = 1;
    let mut total: u32 = 0;
    while m < month
        invariant
            month <= 12,
            1 <= m <= month,
            total as int == spec_days_before_month(year as int, m as int),
            total <= 31 * (m - 1),
        decreases month - m,
    {
        total = total + days_in_month(year, m) as u32;
        m = m + 1;
    }
    total
}

/// Days from 0000-01-01 to year-month-day.
pub fn epoch_days(year: u16, month: u8, day: u8) -> (r: u32)
    requires
        year <= 9999,
        1 <= month <= 12,
        1 <= day <= 31,
    ensures
        r as int == spec_epoch_days(year as int, month as int, day as int),
{
    days_before_year(year) + days_before_month(year, month) + (day as u32) - 1
}

} // verus!
