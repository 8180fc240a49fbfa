//! Arithmetic of the proleptic Gregorian calendar for the years 0000 to 9999.

use vstd::prelude::*;

verus! {

/// Whether `year` has a 29th of February.
pub open spec fn is_leap_year(year: int) -> bool {
    year % 4 == 0 && (year % 100 != 0 || year % 400 == 0)
}

/// The number of days of `year`.
pub open spec fn days_in_year(year: int) -> int {
    if is_leap_year(year) {
        366
    } else {
        365
    }
}

/// The number of days of the month `month` (1 to 12) of `year`.
pub open spec fn days_in_month(year: int, month: int) -> int {
    if month == 2 {
        if is_leap_year(year) {
            29
        } else {
            28
        }
    } else if month == 4 || month == 6 || month == 9 || month == 11 {
        30
    } else {
        31
    }
}

/// Whether year, month and day name a day of the calendar.
pub open spec fn is_valid_date(year: int, month: int, day: int) -> bool {
    &&& 0 <= year <= 9999
    &&& 1 <= month <= 12
    &&& 1 <= day <= days_in_month(year, month)
}

/// Whether hour, minute and second name a second of a day.
pub open spec fn is_valid_time(hour: int, minute: int, second: int) -> bool {
    &&& 0 <= hour <= 23
    &&& 0 <= minute <= 59
    &&& 0 <= second <= 59
}

/// The number of days in the years from 0 up to, and without, `year`.
pub open spec fn days_before_year(year: int) -> int
    decreases year,
{
    if year <= 0 {
        0
    } else {
        days_before_year(year - 1) + days_in_year(year - 1)
    }
}

/// The number of days in the months of `year` that come before `month`.
pub open spec fn days_before_month(year: int, month: int) -> int
    decreases month,
{
    if month <= 1 {
        0
    } else {
        days_before_month(year, month - 1) + days_in_month(year, month - 1)
    }
}

/// The number of days that lie between the first of January of the year 0 and
/// the given day: 0 for that first day itself.
pub open spec fn day_number(year: int, month: int, day: int) -> int {
    days_before_year(year) + days_before_month(year, month) + (day - 1)
}

/// The days of the week.
#[derive(Clone, Copy, Debug, PartialEq, Eq, Structural)]
pub enum Weekday {
    Monday,
    Tuesday,
    Wednesday,
    Thursday,
    Friday,
    Saturday,
    Sunday,
}

/// The weekday that is `index` days after a Monday, for `index` from 0 to 6.
pub open spec fn weekday_from_index(index: int) -> Weekday {
    if index == 0 {
        Weekday::Monday
    } else if index == 1 {
        Weekday::Tuesday
    } else if index == 2 {
        Weekday::Wednesday
    } else if index == 3 {
        Weekday::Thursday
    } else if index == 4 {
        Weekday::Friday
    } else if index == 5 {
        Weekday::Saturday
    } else {
        Weekday::Sunday
    }
}

/// The day of the week of a day. The first of January of the year 0 is a
/// Saturday, and each day after it moves one weekday on.
pub open spec fn weekday_of(year: int, month: int, day: int) -> Weekday {
    weekday_from_index((day_number(year, month, day) + 5) % 7)
}

/// The days before `year`, counted without going through the years one by one.
pub proof fn lemma_days_before_year(year: int)
    requires
        0 <= year,
    ensures
        days_before_year(year) == 365 * year + (year + 3) / 4 - (year + 99) / 100 + (year + 399)
            / 400,
    decreases year,
{
    if year > 0 {
        lemma_days_before_year(year - 1);
    }
}

/// The days before `month`, read off the table of month lengths.
pub proof fn lemma_days_before_month(year: int, month: int)
    requires
        1 <= month <= 12,
    ensures
        days_before_month(year, month) == (if month == 1 {
            0int
        } else if month == 2 {
            31
        } else if month == 3 {
            59
        } else if month == 4 {
            90
        } else if month == 5 {
            120
        } else if month == 6 {
            151
        } else if month == 7 {
            181
        } else if month == 8 {
            212
        } else if month == 9 {
            243
        } else if month == 10 {
            273
        } else if month == 11 {
            304
        } else {
            334
        }) + (if month > 2 && is_leap_year(year) {
            1int
        } else {
            0
        }),
    decreases month,
{
    if month > 1 {
        lemma_days_before_month(year, month - 1);
    }
}

/// Whether the first day comes before the second in the calendar.
pub open spec fn is_earlier_date(
    year: int,
    month: int,
    day: int,
    other_year: int,
    other_month: int,
    other_day: int,
) -> bool {
    ||| year < other_year
    ||| year == other_year && month < other_month
    ||| year == other_year && month == other_month && day < other_day
}

/// No year has a negative number of days before it, and a later year has
/// more of them.
pub proof fn lemma_days_before_year_grows(year: int, later: int)
    requires
        0 <= year <= later,
    ensures
        days_before_year(year) <= days_before_year(later),
        year < later ==> days_before_year(year) + days_in_year(year) <= days_before_year(later),
    decreases later - year,
{
    if year < later {
        lemma_days_before_year_grows(year, later - 1);
    }
}

/// A day that comes later in the calendar has a greater day number.
pub proof fn lemma_day_number_grows(
    year: int,
    month: int,
    day: int,
    other_year: int,
    other_month: int,
    other_day: int,
)
    requires
        is_valid_date(year, month, day),
        is_valid_date(other_year, other_month, other_day),
        is_earlier_date(year, month, day, other_year, other_month, other_day),
    ensures
        day_number(year, month, day) < day_number(other_year, other_month, other_day),
{
    lemma_days_before_month(year, month);
    lemma_days_before_month(other_year, other_month);
    if year < other_year {
        lemma_days_before_year_grows(year, other_year);
    }
}

/// Tells whether `year` is a leap year.
pub fn leap_year(year: i32) -> (leap: bool)
    requires
        0 <= year,
    ensures
        leap == is_leap_year(year as int),
{
    year % 4 == 0 && (year % 100 != 0 || year % 400 == 0)
}

/// The length of a month.
pub fn month_length(year: i32, month: u32) -> (days: u32)
    requires
        0 <= year,
    ensures
        days == days_in_month(year as int, month as int),
{
    if month == 2 {
        if leap_year(year) {
            29
        } else {
            28
        }
    } else if month == 4 || month == 6 || month == 9 || month == 11 {
        30
    } else {
        31
    }
}

/// Tells whether year, month and day name a day of the calendar.
pub fn valid_date(year: i32, month: u32, day: u32) -> (valid: bool)
    ensures
        valid == is_valid_date(year as int, month as int, day as int),
{
    0 <= year && year <= 9999 && 1 <= month && month <= 12 && 1 <= day && day <= month_length(
        year,
        month,
    )
}

/// Counts the days from the first of January of the year 0 to the given day.
pub fn day_count(year: i32, month: u32, day: u32) -> (days: i64)
    requires
        is_valid_date(year as int, month as int, day as int),
    ensures
        days == day_number(year as int, month as int, day as int),
        0 <= days < 3652425,
{
    proof {
        lemma_days_before_year(year as int);
        lemma_days_before_month(year as int, month as int);
    }
    let y: i64 = year as i64;
    let years: i64 = 365 * y + (y + 3) / 4 - (y + 99) / 100 + (y + 399) / 400;
    let table: i64 = if month == 1 {
        0
    } else if month == 2 {
        31
    } else if month == 3 {
        59
    } else if month == 4 {
        90
    } else if month == 5 {
        120
    } else if month == 6 {
        151
    } else if month == 7 {
        181
    } else if month == 8 {
        212
    } else if month == 9 {
        243
    } else if month == 10 {
        273
    } else if month == 11 {
        304
    } else {
        334
    };
    let leap_day: i64 = if month > 2 && leap_year(year) {
        1
    } else {
        0
    };
    years + table + leap_day + (day as i64 - 1)
}

/// The day of the week of a day of the calendar.
pub fn weekday(year: i32, month: u32, day: u32) -> (w: Weekday)
    requires
        is_valid_date(year as int, month as int, day as int),
    ensures
        w == weekday_of(year as int, month as int, day as int),
{
    let index: i64 = (day_count(year, month, day) + 5) % 7;
    if index == 0 {
        Weekday::Monday
    } else if index == 1 {
        Weekday::Tuesday
    } else if index == 2 {
        Weekday::Wednesday
    } else if index == 3 {
        Weekday::Thursday
    } else if index == 4 {
        Weekday::Friday
    } else if index == 5 {
        Weekday::Saturday
    } else {
        Weekday::Sunday
    }
}

} // verus!
