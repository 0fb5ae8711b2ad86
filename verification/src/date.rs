//! Calendar dates in the proleptic Gregorian calendar, as chrono's
//! `NaiveDate` models them, held as plain year/month/day values.
use vstd::prelude::*;
use chrono::Datelike;

verus! {

/// Smallest year for which chrono builds a `NaiveDate`.
pub const MIN_YEAR: i32 = -262143;

/// Largest year for which chrono builds a `NaiveDate`.
pub const MAX_YEAR: i32 = 262142;

/// A calendar date: year, month (1..=12) and day of the month.
#[derive(Clone, Copy, Debug, PartialEq, Eq, Hash, Structural)]
pub struct CalendarDate {
    pub year: i32,
    pub month: u32,
    pub day: u32,
}

/// Gregorian leap years: divisible by 4, and not by 100 unless by 400.
pub open spec fn is_leap_year(y: int) -> bool {
    y % 4 == 0 && (y % 100 != 0 || y % 400 == 0)
}

/// Number of days of month `m` (1..=12) in year `y`.
pub open spec fn days_in_month(y: int, m: int) -> int {
    if m == 2 {
        if is_leap_year(y) { 29 } else { 28 }
    } else if m == 4 || m == 6 || m == 9 || m == 11 {
        30
    } else {
        31
    }
}

/// A date that exists in the calendar and lies in chrono's year range.
pub open spec fn is_valid_ymd(y: int, m: int, d: int) -> bool {
    &&& MIN_YEAR <= y <= MAX_YEAR
    &&& 1 <= m <= 12
    &&& 1 <= d <= days_in_month(y, m)
}

/// Days of all years before `y`, counted so that 0001-01-01 is day 1.
pub open spec fn days_before_year(y: int) -> int {
    365 * (y - 1) + (y - 1) / 4 - (y - 1) / 100 + (y - 1) / 400
}

/// Days of the months before `m` in year `y`.
pub open spec fn days_before_month(y: int, m: int) -> int {
    let l: int = if is_leap_year(y) { 1 } else { 0 };
    if m <= 1 {
        0
    } else if m == 2 {
        31
    } else if m == 3 {
        59 + l
    } else if m == 4 {
        90 + l
    } else if m == 5 {
        120 + l
    } else if m == 6 {
        151 + l
    } else if m == 7 {
        181 + l
    } else if m == 8 {
        212 + l
    } else if m == 9 {
        243 + l
    } else if m == 10 {
        273 + l
    } else if m == 11 {
        304 + l
    } else {
        334 + l
    }
}

/// Day number in the proleptic Gregorian calendar, 0001-01-01 being day 1
/// (chrono's `num_days_from_ce`).
pub open spec fn ordinal_of(y: int, m: int, d: int) -> int {
    days_before_year(y) + days_before_month(y, m) + d
}

/// Weekday of a day number, Monday = 0 .. Sunday = 6 (0001-01-01 is a Monday).
pub open spec fn weekday_of_ordinal(o: int) -> int {
    (o + 6) % 7
}

/// Day number of the earliest date chrono represents.
pub open spec fn first_ordinal() -> int {
    ordinal_of(MIN_YEAR as int, 1, 1)
}

/// Day number of the latest date chrono represents.
pub open spec fn last_ordinal() -> int {
    ordinal_of(MAX_YEAR as int, 12, 31)
}

impl CalendarDate {
    /// The date exists and lies in chrono's range.
    pub open spec fn is_valid(self) -> bool {
        is_valid_ymd(self.year as int, self.month as int, self.day as int)
    }

    /// Day number of the date (0001-01-01 is day 1).
    pub open spec fn ordinal(self) -> int {
        ordinal_of(self.year as int, self.month as int, self.day as int)
    }

    /// Weekday of the date, Monday = 0 .. Sunday = 6.
    pub open spec fn weekday(self) -> int {
        weekday_of_ordinal(self.ordinal())
    }

    /// Chronological order, read off the fields: year, then month, then day.
    pub open spec fn is_before(self, other: CalendarDate) -> bool {
        ||| self.year < other.year
        ||| self.year == other.year && self.month < other.month
        ||| self.year == other.year && self.month == other.month && self.day < other.day
    }
}

/// `chrono::NaiveDate::from_ymd_opt`: by its source, the result is `Some`
/// exactly when the month is in 1..=12, the day exists in that month of the
/// proleptic Gregorian calendar and the year lies in chrono's range.
#[verifier::external_body]
fn chrono_date_exists(year: i32, month: u32, day: u32) -> (exists: bool)
    ensures
        exists == is_valid_ymd(year as int, month as int, day as int),
{
    chrono::NaiveDate::from_ymd_opt(year, month, day).is_some()
}

/// `Datelike::weekday` of a valid `NaiveDate`, read as
/// `Weekday::num_days_from_monday`. chrono counts days in the proleptic
/// Gregorian calendar with 0001-01-01 (a Monday) as day 1; the contract
/// states the weekday through that count.
#[verifier::external_body]
fn chrono_weekday_from_monday(date: CalendarDate) -> (weekday: u32)
    requires
        date.is_valid(),
    ensures
        weekday == date.weekday(),
{
    chrono::NaiveDate::from_ymd_opt(date.year, date.month, date.day).unwrap().weekday().num_days_from_monday()
}

/// `NaiveDate + TimeDelta` with a whole number of days: the date whose day
/// count is that of `date` plus `days`. chrono panics when the result leaves
/// its range, which the precondition rules out.
#[verifier::external_body]
fn chrono_add_days(date: CalendarDate, days: i64) -> (moved: CalendarDate)
    requires
        date.is_valid(),
        first_ordinal() <= date.ordinal() + days <= last_ordinal(),
    ensures
        moved.is_valid(),
        moved.ordinal() == date.ordinal() + days,
{
    let moved = chrono::NaiveDate::from_ymd_opt(date.year, date.month, date.day).unwrap()
        + chrono::Duration::days(days);
    CalendarDate { year: moved.year(), month: moved.month(), day: moved.day() }
}

impl CalendarDate {
    /// Makes the date with the given year, month and day; `None` when the
    /// date does not exist or lies outside chrono's range.
    pub fn from_ymd_opt(year: i32, month: u32, day: u32) -> (date: Option<CalendarDate>)
        ensures
            date is Some <==> is_valid_ymd(year as int, month as int, day as int),
            date matches Some(d) ==> d.year == year && d.month == month && d.day == day,
    {
        if chrono_date_exists(year, month, day) {
            Some(CalendarDate { year, month, day })
        } else {
            None
        }
    }

    /// Weekday of the date, Monday = 0 .. Sunday = 6.
    pub fn num_days_from_monday(&self) -> (weekday: u32)
        requires
            self.is_valid(),
        ensures
            weekday == self.weekday(),
            weekday < 7,
    {
        chrono_weekday_from_monday(*self)
    }

    /// The date `days` days later (earlier when negative).
    pub fn add_days(&self, days: i64) -> (moved: CalendarDate)
        requires
            self.is_valid(),
            first_ordinal() <= self.ordinal() + days <= last_ordinal(),
        ensures
            moved.is_valid(),
            moved.ordinal() == self.ordinal() + days,
    {
        chrono_add_days(*self, days)
    }

    /// Whether `self` comes strictly before `other` in time.
    pub fn comes_before(&self, other: &CalendarDate) -> (before: bool)
        ensures
            before == self.is_before(*other),
    {
        self.year < other.year || (self.year == other.year && (self.month < other.month
            || (self.month == other.month && self.day < other.day)))
    }
}

/// Stepping a year past a multiple of 4 adds one to its count of them.
proof fn lemma_multiples_of_4(y: int)
    ensures
        y / 4 - (y - 1) / 4 == (if y % 4 == 0 { 1int } else { 0int }),
{
}

/// Stepping a year past a multiple of 100 adds one to its count of them.
proof fn lemma_multiples_of_100(y: int)
    ensures
        y / 100 - (y - 1) / 100 == (if y % 100 == 0 { 1int } else { 0int }),
{
}

/// Stepping a year past a multiple of 400 adds one to its count of them.
proof fn lemma_multiples_of_400(y: int)
    ensures
        y / 400 - (y - 1) / 400 == (if y % 400 == 0 { 1int } else { 0int }),
{
}

/// The days of a year: 365, plus one in a leap year.
pub proof fn lemma_days_before_next_year(y: int)
    ensures
        days_before_year(y + 1) == days_before_year(y) + 365 + (if is_leap_year(y) { 1int } else { 0int }),
{
    lemma_multiples_of_4(y);
    lemma_multiples_of_100(y);
    lemma_multiples_of_400(y);
    assert(y % 100 == 0 ==> y % 4 == 0);
    assert(y % 400 == 0 ==> y % 100 == 0);
}

/// Earlier years start earlier.
pub proof fn lemma_days_before_year_monotone(a: int, b: int)
    requires
        a <= b,
    ensures
        days_before_year(a) <= days_before_year(b),
    decreases b - a,
{
    if a < b {
        lemma_days_before_year_monotone(a, b - 1);
        lemma_days_before_next_year(b - 1);
    }
}

/// The months before `m2` hold the months before `m1` and all of month `m1`.
pub proof fn lemma_days_before_month_monotone(y: int, m1: int, m2: int)
    requires
        1 <= m1 < m2 <= 12,
    ensures
        days_before_month(y, m1) + days_in_month(y, m1) <= days_before_month(y, m2),
{
}

/// A valid date lies within its year's span of day numbers.
pub proof fn lemma_ordinal_within_year(date: CalendarDate)
    requires
        date.is_valid(),
    ensures
        days_before_year(date.year as int) < date.ordinal(),
        date.ordinal() <= days_before_year(date.year as int + 1),
{
    lemma_days_before_next_year(date.year as int);
}

/// Day numbers follow the chronological order of valid dates.
pub proof fn lemma_ordinal_strictly_increasing(a: CalendarDate, b: CalendarDate)
    requires
        a.is_valid(),
        b.is_valid(),
        a.is_before(b),
    ensures
        a.ordinal() < b.ordinal(),
{
    if a.year < b.year {
        lemma_ordinal_within_year(a);
        lemma_ordinal_within_year(b);
        lemma_days_before_year_monotone(a.year as int + 1, b.year as int);
    } else if a.month < b.month {
        lemma_days_before_month_monotone(a.year as int, a.month as int, b.month as int);
    }
}

/// Distinct valid dates have distinct day numbers.
pub proof fn lemma_ordinal_injective(a: CalendarDate, b: CalendarDate)
    requires
        a.is_valid(),
        b.is_valid(),
        a.ordinal() == b.ordinal(),
    ensures
        a == b,
{
    if a.is_before(b) {
        lemma_ordinal_strictly_increasing(a, b);
    } else if b.is_before(a) {
        lemma_ordinal_strictly_increasing(b, a);
    }
}

} // verus!
