//! Calendar days and instants.
//!
//! A day is identified by its number in the proleptic Gregorian calendar,
//! counted so that 1 January of year 1 is day 1. An instant is a number of
//! seconds since 1970-01-01T00:00:00 UTC; its day and its hour are those of
//! the UTC calendar.

use vstd::prelude::*;

verus! {

/// Seconds in one day.
pub const SECONDS_PER_DAY: i64 = 86_400;

/// Seconds in one hour.
pub const SECONDS_PER_HOUR: i64 = 3_600;

/// The day number of 1970-01-01.
pub const UNIX_EPOCH_DAY: i64 = 719_163;

/// The earliest year in which a calendar date can be named: the earliest
/// that a `chrono::NaiveDate` holds.
pub const MIN_YEAR: i32 = -262_143;

/// The latest year in which a calendar date can be named: the latest that a
/// `chrono::NaiveDate` holds.
pub const MAX_YEAR: i32 = 262_142;

/// Whether `year` has a 29 February.
pub open spec fn is_leap_year(year: int) -> bool {
    year % 4 == 0 && (year % 100 != 0 || year % 400 == 0)
}

/// Length of a month, for `month` in 1..=12.
pub open spec fn days_in_month(year: int, month: int) -> int {
    if month == 2 {
        if is_leap_year(year) {
            29
        } else {
            28
        }
    } else if month == 4 || month == 6 || month == 9 || month == 11 {
        30
    } else {
        31
    }
}

/// Days of `year` that lie before the first day of `month`.
pub open spec fn days_before_month(year: int, month: int) -> int
    decreases month,
{
    if month <= 1 {
        0
    } else {
        days_before_month(year, month - 1) + days_in_month(year, month - 1)
    }
}

/// Days from 1 January of year 1 up to, and without, 1 January of `year`.
pub open spec fn days_before_year(year: int) -> int {
    365 * (year - 1) + (year - 1) / 4 - (year - 1) / 100 + (year - 1) / 400
}

/// Whether `year`-`month`-`day` names a day of the calendar.
pub open spec fn is_calendar_date(year: int, month: int, day: int) -> bool {
    1 <= month <= 12 && 1 <= day <= days_in_month(year, month)
}

/// Whether `year`-`month`-`day` names a day of the calendar in a year of
/// `MIN_YEAR..=MAX_YEAR`.
pub open spec fn can_be_named(year: int, month: int, day: int) -> bool {
    MIN_YEAR <= year <= MAX_YEAR && is_calendar_date(year, month, day)
}

/// The day number of `year`-`month`-`day`; 0001-01-01 is day 1.
pub open spec fn day_number(year: int, month: int, day: int) -> int {
    days_before_year(year) + days_before_month(year, month) + day
}

/// The month that follows `month` of `year`, as year and month.
pub open spec fn next_month(year: int, month: int) -> (int, int) {
    if month == 12 {
        (year + 1, 1)
    } else {
        (year, month + 1)
    }
}

/// The first day of the following month comes as many days after the first
/// day of a month as the month is long.
pub proof fn lemma_month_length(year: int, month: int)
    requires
        1 <= month <= 12,
    ensures
        day_number(next_month(year, month).0, next_month(year, month).1, 1) == day_number(
            year,
            month,
            1,
        ) + days_in_month(year, month),
        28 <= days_in_month(year, month) <= 31,
{
    if month == 12 {
        reveal_with_fuel(days_before_month, 13);
        assert(days_before_month(year, 12) == if is_leap_year(year) {
            335int
        } else {
            334int
        });
        assert(days_before_year(year + 1) - days_before_year(year) == if is_leap_year(year) {
            366int
        } else {
            365int
        });
    }
}

/// The day on which the instant `seconds` falls: days are counted in whole
/// multiples of 86 400 seconds from the epoch, rounded down.
pub open spec fn day_of_instant(seconds: int) -> int {
    seconds / 86_400 + 719_163
}

/// The hour of the day, 0 to 23, in which the instant `seconds` falls.
pub open spec fn hour_of_instant(seconds: int) -> int {
    (seconds % 86_400) / 3_600
}

/// Position of a day in its week: 0 for Monday up to 6 for Sunday.
pub open spec fn days_from_monday(day: int) -> int {
    (day - 1) % 7
}

/// A day of the week.
#[derive(Debug, Clone, Copy, PartialEq, Eq, Structural, Hash)]
pub enum Weekday {
    Mon,
    Tue,
    Wed,
    Thu,
    Fri,
    Sat,
    Sun,
}

impl Weekday {
    /// 0 for Monday up to 6 for Sunday.
    pub open spec fn index(self) -> int {
        match self {
            Weekday::Mon => 0,
            Weekday::Tue => 1,
            Weekday::Wed => 2,
            Weekday::Thu => 3,
            Weekday::Fri => 4,
            Weekday::Sat => 5,
            Weekday::Sun => 6,
        }
    }

    pub fn num_days_from_monday(&self) -> (r: u8)
        ensures
            r == self.index(),
    {
        match self {
            Weekday::Mon => 0,
            Weekday::Tue => 1,
            Weekday::Wed => 2,
            Weekday::Thu => 3,
            Weekday::Fri => 4,
            Weekday::Sat => 5,
            Weekday::Sun => 6,
        }
    }

    /// The weekday at `index` days after Monday.
    pub(crate) fn from_index(index: u8) -> (r: Weekday)
        requires
            index < 7,
        ensures
            r.index() == index,
    {
        if index == 0 {
            Weekday::Mon
        } else if index == 1 {
            Weekday::Tue
        } else if index == 2 {
            Weekday::Wed
        } else if index == 3 {
            Weekday::Thu
        } else if index == 4 {
            Weekday::Fri
        } else if index == 5 {
            Weekday::Sat
        } else {
            Weekday::Sun
        }
    }
}

/// Floor of `a / b` and the matching remainder, for a positive divisor.
pub fn div_floor(a: i64, b: i64) -> (r: (i64, i64))
    requires
        b > 0,
    ensures
        r.0 == a as int / b as int,
        r.1 == a as int % b as int,
        0 <= r.1 < b,
{
    if a >= 0 {
        (a / b, a % b)
    } else {
        let m: i64 = -(a + 1);
        let q: i64 = m / b;
        let rem: i64 = m % b;
        proof {
            assert(m == q * b + rem) by (nonlinear_arith)
                requires
                    q == m as int / b as int,
                    rem == m as int % b as int,
                    b > 0,
            ;
            let qq: int = -1 - q;
            let rr: int = b - 1 - rem;
            assert(a == qq * b + rr) by (nonlinear_arith)
                requires
                    m == q * b + rem,
                    m == -(a + 1),
                    qq == -1 - q,
                    rr == b - 1 - rem,
            ;
            vstd::arithmetic::div_mod::lemma_fundamental_div_mod_converse(
                a as int,
                b as int,
                qq,
                rr,
            );
        }
        (-1 - q, b - 1 - rem)
    }
}

/// A calendar day, held as its day number.
#[derive(Debug, Clone, Copy, PartialEq, Eq, Structural, Hash)]
pub struct Date {
    pub day_number: i64,
}

impl View for Date {
    type V = int;

    open spec fn view(&self) -> int {
        self.day_number as int
    }
}

/// Whether `year` has a 29 February.
pub fn leap_year(year: i32) -> (r: bool)
    ensures
        r == is_leap_year(year as int),
{
    let y = year as i64;
    div_floor(y, 4).1 == 0 && (div_floor(y, 100).1 != 0 || div_floor(y, 400).1 == 0)
}

/// The length of the month `month` of `year`.
pub fn month_length(year: i32, month: u32) -> (r: u32)
    ensures
        r == days_in_month(year as int, month as int),
{
    if month == 2 {
        if leap_year(year) {
            29
        } else {
            28
        }
    } else if month == 4 || month == 6 || month == 9 || month == 11 {
        30
    } else {
        31
    }
}

/// The days of `year` that lie before the first day of `month`.
fn days_before(year: i32, month: u32) -> (r: i64)
    requires
        1 <= month <= 12,
    ensures
        r == days_before_month(year as int, month as int),
        0 <= r <= 335,
{
    proof {
        reveal_with_fuel(days_before_month, 13);
    }
    let in_common_year: i64 = if month == 1 {
        0
    } else if month == 2 {
        31
    } else if month == 3 {
        59
    } else if month == 4 {
        90
    } else if month == 5 {
        120
    } else if month == 6 {
        151
    } else if month == 7 {
        181
    } else if month == 8 {
        212
    } else if month == 9 {
        243
    } else if month == 10 {
        273
    } else if month == 11 {
        304
    } else {
        334
    };
    if month > 2 && leap_year(year) {
        in_common_year + 1
    } else {
        in_common_year
    }
}

/// The days from 1 January of year 1 up to, and without, 1 January of `year`.
fn days_to_year(year: i32) -> (r: i64)
    requires
        MIN_YEAR <= year <= MAX_YEAR,
    ensures
        r == days_before_year(year as int),
        -96_000_000 <= r <= 96_000_000,
{
    let y = year as i64 - 1;
    365 * y + div_floor(y, 4).0 - div_floor(y, 100).0 + div_floor(y, 400).0
}

impl Date {
    /// The day with the given number.
    pub fn from_day_number(day_number: i64) -> (r: Date)
        ensures
            r@ == day_number,
    {
        Date { day_number }
    }

    /// The day `year`-`month`-`day`, or `None` where the calendar has no such
    /// day or the year lies outside `MIN_YEAR..=MAX_YEAR`.
    pub fn from_ymd(year: i32, month: u32, day: u32) -> (r: Option<Date>)
        ensures
            r is Some <==> can_be_named(year as int, month as int, day as int),
            r matches Some(d) ==> d@ == day_number(year as int, month as int, day as int),
            r matches Some(d) ==> i32::MIN <= d@ <= i32::MAX,
    {
        if year < MIN_YEAR || year > MAX_YEAR || month < 1 || month > 12 {
            return None;
        }
        if day < 1 || day > month_length(year, month) {
            return None;
        }
        Some(Date { day_number: days_to_year(year) + days_before(year, month) + day as i64 })
    }

    /// The day `days` after this one (before it, for a negative `days`).
    pub fn plus_days(self, days: i64) -> (r: Date)
        requires
            i64::MIN <= self@ + days <= i64::MAX,
        ensures
            r@ == self@ + days,
    {
        Date { day_number: self.day_number + days }
    }

    /// How many days this day lies after `earlier`, where that fits.
    pub fn days_since(self, earlier: Date) -> (r: Option<i64>)
        ensures
            r is Some <==> i64::MIN <= self@ - earlier@ <= i64::MAX,
            r matches Some(n) ==> n == self@ - earlier@,
    {
        self.day_number.checked_sub(earlier.day_number)
    }

    pub fn weekday(&self) -> (r: Weekday)
        ensures
            r.index() == days_from_monday(self@),
    {
        let (_, offset) = div_floor(self.day_number, 7);
        // `offset` is the position of the following day in its week.
        let index: u8 = if offset == 0 {
            6
        } else {
            (offset - 1) as u8
        };
        Weekday::from_index(index)
    }

    /// The Monday on or before this day.
    pub fn week_start(self) -> (r: Date)
        requires
            self@ - 6 >= i64::MIN,
        ensures
            days_from_monday(r@) == 0,
            r@ <= self@ < r@ + 7,
    {
        let back = self.weekday().num_days_from_monday();
        Date { day_number: self.day_number - back as i64 }
    }
}

/// An instant: whole seconds since 1970-01-01T00:00:00 UTC, and the
/// nanoseconds since the last full second. Only the seconds decide the day,
/// the hour and the weekday; the nanoseconds are carried along.
#[derive(Debug, Clone, Copy, PartialEq, Eq, Structural, Hash)]
pub struct Timestamp {
    pub seconds: i64,
    pub nanos: u32,
}

impl Timestamp {
    /// The number of the UTC day on which the instant falls.
    pub open spec fn day(self) -> int {
        day_of_instant(self.seconds as int)
    }

    /// The UTC hour of the day in which the instant falls.
    pub open spec fn hour_of_day(self) -> int {
        hour_of_instant(self.seconds as int)
    }

    /// The UTC day on which the instant falls.
    pub fn date(&self) -> (r: Date)
        ensures
            r@ == self.day(),
    {
        let (days, _) = div_floor(self.seconds, SECONDS_PER_DAY);
        Date { day_number: days + UNIX_EPOCH_DAY }
    }

    /// The UTC hour, 0 to 23, in which the instant falls.
    pub fn hour(&self) -> (r: u8)
        ensures
            r == self.hour_of_day(),
            r < 24,
    {
        let (_, second_of_day) = div_floor(self.seconds, SECONDS_PER_DAY);
        (second_of_day / SECONDS_PER_HOUR) as u8
    }

    /// The day of the week on which the instant falls.
    pub fn weekday(&self) -> (r: Weekday)
        ensures
            r.index() == days_from_monday(self.day()),
    {
        self.date().weekday()
    }
}

} // verus!
