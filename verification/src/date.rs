//! Date/time handling for the Amiga format.
//!
//! Dates are stored as days since January 1, 1978, minutes since midnight,
//! and ticks (1/50 second).
use vstd::prelude::*;

verus! {

/// Whether `y` is a leap year (Gregorian rule).
pub open spec fn spec_is_leap_year(y: int) -> bool {
    if y % 100 == 0 {
        y % 400 == 0
    } else {
        y % 4 == 0
    }
}

/// Number of days in year `y`.
pub open spec fn spec_days_in_year(y: int) -> int {
    if spec_is_leap_year(y) {
        366
    } else {
        365
    }
}

/// Number of days in month `m` (1-12) of year `y`.
pub open spec fn spec_month_len(y: int, m: int) -> int {
    if m == 2 {
        if spec_is_leap_year(y) {
            29
        } else {
            28
        }
    } else if m == 4 || m == 6 || m == 9 || m == 11 {
        30
    } else {
        31
    }
}

/// Number of days from 1978-01-01 up to the start of year `y`.
pub open spec fn spec_days_before_year(y: int) -> int
    decreases y,
{
    if y <= 1978 {
        0
    } else {
        spec_days_before_year(y - 1) + spec_days_in_year(y - 1)
    }
}

/// Number of days from the start of year `y` up to the start of month `m`.
pub open spec fn spec_days_before_month(y: int, m: int) -> int
    decreases m,
{
    if m <= 1 {
        0
    } else {
        spec_days_before_month(y, m - 1) + spec_month_len(y, m - 1)
    }
}

/// Truncating division of `t` by 50 (rounding toward zero, as the
/// executable integer division does).
pub open spec fn spec_div50_trunc(t: int) -> int {
    if t >= 0 {
        t / 50
    } else {
        -((-t) / 50)
    }
}

proof fn lemma_days_before_year_lower(y: int)
    requires
        y >= 1978,
    ensures
        spec_days_before_year(y) >= 365 * (y - 1978),
    decreases y,
{
    if y > 1978 {
        lemma_days_before_year_lower(y - 1);
    }
}

proof fn lemma_year_total(y: int)
    ensures
        spec_days_before_month(y, 13) == spec_days_in_year(y),
{
    assert(spec_days_before_month(y, 1) == 0);
    assert(spec_days_before_month(y, 2) == spec_days_before_month(y, 1) + spec_month_len(y, 1));
    assert(spec_days_before_month(y, 3) == spec_days_before_month(y, 2) + spec_month_len(y, 2));
    assert(spec_days_before_month(y, 4) == spec_days_before_month(y, 3) + spec_month_len(y, 3));
    assert(spec_days_before_month(y, 5) == spec_days_before_month(y, 4) + spec_month_len(y, 4));
    assert(spec_days_before_month(y, 6) == spec_days_before_month(y, 5) + spec_month_len(y, 5));
    assert(spec_days_before_month(y, 7) == spec_days_before_month(y, 6) + spec_month_len(y, 6));
    assert(spec_days_before_month(y, 8) == spec_days_before_month(y, 7) + spec_month_len(y, 7));
    assert(spec_days_before_month(y, 9) == spec_days_before_month(y, 8) + spec_month_len(y, 8));
    assert(spec_days_before_month(y, 10) == spec_days_before_month(y, 9) + spec_month_len(y, 9));
    assert(spec_days_before_month(y, 11) == spec_days_before_month(y, 10) + spec_month_len(y, 10));
    assert(spec_days_before_month(y, 12) == spec_days_before_month(y, 11) + spec_month_len(y, 11));
    assert(spec_days_before_month(y, 13) == spec_days_before_month(y, 12) + spec_month_len(y, 12));
}

/// Amiga date representation.
#[derive(Debug, Clone, Copy, PartialEq, Eq, Structural)]
pub struct AmigaDate {
    /// Days since January 1, 1978.
    pub days: i32,
    /// Minutes since midnight.
    pub mins: i32,
    /// Ticks (1/50 second).
    pub ticks: i32,
}

impl Default for AmigaDate {
    /// The Amiga epoch itself: all fields zero.
    fn default() -> (r: Self)
        ensures
            r.days == 0,
            r.mins == 0,
            r.ticks == 0,
    {
        AmigaDate { days: 0, mins: 0, ticks: 0 }
    }
}

/// Decoded date and time.
#[derive(Debug, Clone, Copy, PartialEq, Eq, Structural)]
pub struct DateTime {
    /// Year (e.g., 1978-2100).
    pub year: u16,
    /// Month (1-12).
    pub month: u8,
    /// Day of month (1-31).
    pub day: u8,
    /// Hour (0-23).
    pub hour: u8,
    /// Minute (0-59).
    pub minute: u8,
    /// Second (0-59).
    pub second: u8,
}

impl Default for DateTime {
    /// A date and time with all fields zero.
    fn default() -> (r: Self)
        ensures
            r.year == 0,
            r.month == 0,
            r.day == 0,
            r.hour == 0,
            r.minute == 0,
            r.second == 0,
    {
        DateTime { year: 0, month: 0, day: 0, hour: 0, minute: 0, second: 0 }
    }
}

impl AmigaDate {
    /// Create a new Amiga date from raw values.
    pub fn new(days: i32, mins: i32, ticks: i32) -> (r: Self)
        ensures
            r.days == days,
            r.mins == mins,
            r.ticks == ticks,
    {
        AmigaDate { days, mins, ticks }
    }

    /// Convert to a more usable date format.
    ///
    /// The bounds are a deliberate choice: they admit every date that has a
    /// meaningful calendar reading (day counts through roughly year 11970,
    /// minutes within one day, ticks within one minute) and exclude the
    /// rest, where a conversion could only return truncated nonsense and
    /// the computed year could leave `u16`. The exact contract below holds
    /// on the whole admitted range.
    pub fn to_date_time(self) -> (r: DateTime)
        requires
            0 <= self.days <= 3650000,
            0 <= self.mins < 1440,
            0 <= self.ticks < 3000,
        ensures
            1978 <= r.year,
            1 <= r.month <= 12,
            1 <= r.day <= spec_month_len(r.year as int, r.month as int),
            spec_days_before_year(r.year as int) + spec_days_before_month(
                r.year as int,
                r.month as int,
            ) + (r.day - 1) == self.days,
            r.hour == self.mins as int / 60,
            r.minute == self.mins as int % 60,
            r.second == self.ticks as int / 50,
    {
        let (year, month, day) = days_to_date(self.days);
        let m = self.mins as u32;
        let t = self.ticks as u32;
        let hour = (m / 60) as u8;
        let minute = (m % 60) as u8;
        let second = (t / 50) as u8;
        DateTime { year, month, day, hour, minute, second }
    }

    /// Convert to Unix timestamp (seconds since 1970-01-01 00:00:00 UTC):
    /// `days * 86400 + mins * 60 + ticks / 50 + 252460800`, the constant
    /// being the offset of the 1978 epoch from the 1970 epoch.
    pub fn to_unix_timestamp(self) -> (r: i64)
        ensures
            r == self.days as int * 86400 + self.mins as int * 60 + spec_div50_trunc(
                self.ticks as int,
            ) + 252460800,
    {
        let d: i64 = (self.days as i64) * 86400;
        let mi: i64 = (self.mins as i64) * 60;
        let tick_secs: i64 = if self.ticks >= 0 {
            ((self.ticks as u32) / 50) as i64
        } else {
            let neg = -(self.ticks as i64);
            -(((neg as u64) / 50) as i64)
        };
        d + mi + tick_secs + 252460800
    }
}

/// Number of days in month `m` of year `year`.
fn month_len(year: u16, month: u8) -> (r: u32)
    requires
        1 <= month <= 12,
    ensures
        r == spec_month_len(year as int, month as int),
{
    if month == 2 {
        if is_leap_year(year) {
            29
        } else {
            28
        }
    } else if month == 4 || month == 6 || month == 9 || month == 11 {
        30
    } else {
        31
    }
}

/// Convert days since 1978-01-01 to (year, month, day).
fn days_to_date(days: i32) -> (r: (u16, u8, u8))
    requires
        0 <= days <= 3650000,
    ensures
        1978 <= r.0,
        1 <= r.1 <= 12,
        1 <= r.2 <= spec_month_len(r.0 as int, r.1 as int),
        spec_days_before_year(r.0 as int) + spec_days_before_month(r.0 as int, r.1 as int) + (
        r.2 - 1) == days,
{
    let mut days_left: u32 = days as u32;
    let mut year: u16 = 1978;
    let mut diy: u32 = if is_leap_year(year) {
        366
    } else {
        365
    };
    while days_left >= diy
        invariant
            1978 <= year,
            year <= 11979,
            diy == spec_days_in_year(year as int),
            spec_days_before_year(year as int) + days_left == days,
            days <= 3650000,
        decreases days_left,
    {
        proof {
            lemma_days_before_year_lower(year as int);
        }
        days_left = days_left - diy;
        year = year + 1;
        diy = if is_leap_year(year) {
            366
        } else {
            365
        };
    }
    let ghost d0 = days_left;
    let mut month: u8 = 1;
    let mut ml: u32 = month_len(year, month);
    while month < 12 && days_left >= ml
        invariant
            1 <= month <= 12,
            1978 <= year,
            ml == spec_month_len(year as int, month as int),
            spec_days_before_month(year as int, month as int) + days_left == d0,
            d0 < spec_days_in_year(year as int),
        decreases 12 - month,
    {
        days_left = days_left - ml;
        month = month + 1;
        ml = month_len(year, month);
    }
    proof {
        if month == 12 && days_left >= ml {
            lemma_year_total(year as int);
            assert(false);
        }
    }
    let day = (days_left + 1) as u8;
    (year, month, day)
}

/// Check if a year is a leap year.
pub fn is_leap_year(year: u16) -> (r: bool)
    ensures
        r == spec_is_leap_year(year as int),
{
    if year % 100 == 0 {
        year % 400 == 0
    } else {
        year % 4 == 0
    }
}

} // verus!
