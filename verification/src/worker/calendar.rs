//! Calendar dates of the proleptic Gregorian calendar, counted in days since
//! 1970-01-01.

use vstd::prelude::*;

verus! {

/// Whether `y` is a leap year.
pub open spec fn is_leap(y: int) -> bool {
    (y % 4 == 0 && y % 100 != 0) || y % 400 == 0
}

/// The number of days of month `m` of year `y`.
pub open spec fn days_in_month(y: int, m: int) -> int {
    if m == 2 {
        if is_leap(y) {
            29
        } else {
            28
        }
    } else if m == 4 || m == 6 || m == 9 || m == 11 {
        30
    } else {
        31
    }
}

/// The days of year `y` before its month `m`.
pub open spec fn days_before_month(y: int, m: int) -> int
    decreases m,
{
    if m <= 1 {
        0
    } else {
        days_before_month(y, m - 1) + days_in_month(y, m - 1)
    }
}

/// The number of leap years in the years `1..=y`, less those before year 1
/// where `y` is negative.
pub open spec fn leap_years_to(y: int) -> int {
    y / 4 - y / 100 + y / 400
}

/// The days from 1970-01-01 to the first day of year `y`.
pub open spec fn days_before_year(y: int) -> int {
    365 * (y - 1970) + leap_years_to(y - 1) - leap_years_to(1969)
}

/// The days from 1970-01-01 to the day `d` of month `m` of year `y`.
pub open spec fn day_number(y: int, m: int, d: int) -> int {
    days_before_year(y) + days_before_month(y, m) + d - 1
}

/// Whether month `m` and day `d` exist in year `y`.
pub open spec fn is_date(y: int, m: int, d: int) -> bool {
    1 <= m <= 12 && 1 <= d <= days_in_month(y, m)
}

/// A year has 366 days if it is a leap year and 365 if not.
pub proof fn lemma_year_length(y: int)
    ensures
        days_before_year(y + 1) - days_before_year(y) == (if is_leap(y) {
            366int
        } else {
            365int
        }),
{
    lemma_leap_step(y);
}

/// The count of leap years grows by one exactly at a leap year.
#[verifier::spinoff_prover]
proof fn lemma_leap_step(y: int)
    ensures
        leap_years_to(y) - leap_years_to(y - 1) == (if is_leap(y) {
            1int
        } else {
            0int
        }),
{
    lemma_step(y, 4);
    lemma_step(y, 100);
    lemma_step(y, 400);
    assert(y % 400 == 0 ==> y % 100 == 0) by {
        if y % 400 == 0 {
            assert(y == (4 * (y / 400)) * 100);
            vstd::arithmetic::div_mod::lemma_mod_multiples_basic(4 * (y / 400), 100);
        }
    }
    assert(y % 100 == 0 ==> y % 4 == 0) by {
        if y % 100 == 0 {
            assert(y == (25 * (y / 100)) * 4);
            vstd::arithmetic::div_mod::lemma_mod_multiples_basic(25 * (y / 100), 4);
        }
    }
}

/// A quotient grows by one exactly at the multiples of its divisor.
proof fn lemma_step(y: int, k: int)
    requires
        k == 4 || k == 100 || k == 400,
    ensures
        y / k - (y - 1) / k == (if y % k == 0 {
            1int
        } else {
            0int
        }),
{
}

/// A date.
#[derive(Debug, Clone, Copy, PartialEq, Eq, Structural)]
pub struct Date {
    pub year: i64,
    pub month: u32,
    pub day: u32,
}

proof fn lemma_months(y: int)
    ensures
        days_before_month(y, 1) == 0,
        days_before_month(y, 2) == 31,
        days_before_month(y, 3) == 31 + days_in_month(y, 2),
        days_before_month(y, 4) == 62 + days_in_month(y, 2),
        days_before_month(y, 5) == 92 + days_in_month(y, 2),
        days_before_month(y, 6) == 123 + days_in_month(y, 2),
        days_before_month(y, 7) == 153 + days_in_month(y, 2),
        days_before_month(y, 8) == 184 + days_in_month(y, 2),
        days_before_month(y, 9) == 215 + days_in_month(y, 2),
        days_before_month(y, 10) == 245 + days_in_month(y, 2),
        days_before_month(y, 11) == 276 + days_in_month(y, 2),
        days_before_month(y, 12) == 306 + days_in_month(y, 2),
{
    reveal_with_fuel(days_before_month, 13);
}

/// Where the day of the era falls: the year of the era, and the day of that
/// year, counted from March.
proof fn lemma_year_of_era(doe: int, yoe: int, doy: int)
    requires
        0 <= doe < 146097,
        yoe == (doe - doe / 1460 + doe / 36524 - doe / 146096) / 365,
        doy == doe - (365 * yoe + yoe / 4 - yoe / 100),
    ensures
        0 <= yoe < 400,
        0 <= doy < 366,
        doy == 365 ==> is_leap(yoe + 1),
{
}

/// More eras than there are between the year 0 and the first day whose seconds
/// since 1970 are 64 bits wide.
const ERAS_MOVED: i64 = 800_000_000;

/// Convert days since 1970-01-01 to a date. Years are taken to begin in March,
/// so that the leap day comes last; 400 of them make an era.
pub fn civil_from_days(days: i64) -> (date: Date)
    requires
        -(i64::MAX / 86400) <= days <= u64::MAX / 86400,
    ensures
        is_date(date.year as int, date.month as int, date.day as int),
        day_number(date.year as int, date.month as int, date.day as int) == days,
{
    let z: i64 = days + 719468;
    // Moved by whole eras to where it is not negative.
    let moved: i64 = z + 146097 * ERAS_MOVED;
    let era: i64 = moved / 146097 - ERAS_MOVED;
    let doe: i64 = moved % 146097;
    let yoe: i64 = (doe - doe / 1460 + doe / 36524 - doe / 146096) / 365;
    let doy: i64 = doe - (365 * yoe + yoe / 4 - yoe / 100);
    proof {
        lemma_year_of_era(doe as int, yoe as int, doy as int);
    }
    let march_year: i64 = yoe + era * 400;
    let mp: i64 = (5 * doy + 2) / 153;
    let day: i64 = doy - (153 * mp + 2) / 5 + 1;
    let month: i64 = if mp < 10 {
        mp + 3
    } else {
        mp - 9
    };
    let year: i64 = if month <= 2 {
        march_year + 1
    } else {
        march_year
    };
    proof {
        lemma_date(
            days as int,
            era as int,
            doe as int,
            yoe as int,
            doy as int,
            mp as int,
            day as int,
            month as int,
            year as int,
        );
    }
    Date { year, month: month as u32, day: day as u32 }
}

/// The day of a year that begins in March, as a month and a day.
proof fn lemma_march_day(doy: int, mp: int, day: int)
    requires
        0 <= doy < 366,
        mp == (5 * doy + 2) / 153,
        day == doy - (153 * mp + 2) / 5 + 1,
    ensures
        0 <= mp <= 11,
        mp == 0 ==> 1 <= day <= 31 && doy == day - 1,
        mp == 1 ==> 1 <= day <= 30 && doy == 31 + day - 1,
        mp == 2 ==> 1 <= day <= 31 && doy == 61 + day - 1,
        mp == 3 ==> 1 <= day <= 30 && doy == 92 + day - 1,
        mp == 4 ==> 1 <= day <= 31 && doy == 122 + day - 1,
        mp == 5 ==> 1 <= day <= 31 && doy == 153 + day - 1,
        mp == 6 ==> 1 <= day <= 30 && doy == 184 + day - 1,
        mp == 7 ==> 1 <= day <= 31 && doy == 214 + day - 1,
        mp == 8 ==> 1 <= day <= 30 && doy == 245 + day - 1,
        mp == 9 ==> 1 <= day <= 31 && doy == 275 + day - 1,
        mp == 10 ==> 1 <= day <= 31 && doy == 306 + day - 1,
        mp == 11 ==> 1 <= day <= 29 && doy == 337 + day - 1,
        mp == 11 && day == 29 ==> doy == 365,
{
}

/// The days before the March of year `y`.
proof fn lemma_days_before_march(y: int, era: int, yoe: int)
    requires
        0 <= yoe < 400,
        y == yoe + 400 * era,
    ensures
        days_before_year(y) + days_before_month(y, 3) == 146097 * era + 365 * yoe + yoe / 4 - yoe
            / 100 - 719468,
        days_before_year(y + 1) == days_before_year(y) + 337 + days_in_month(y, 2),
{
    lemma_months(y);
    lemma_year_length(y);
    lemma_leap_step(y);
    assert(leap_years_to(y) == yoe / 4 - yoe / 100 + 97 * era) by {
        assert(y / 4 == yoe / 4 + 100 * era);
        assert(y / 100 == yoe / 100 + 4 * era);
        assert(y / 400 == era);
    }
    assert(leap_years_to(1969) == 477);
}

#[verifier::spinoff_prover]
#[verifier::rlimit(40)]
proof fn lemma_date(
    days: int,
    era: int,
    doe: int,
    yoe: int,
    doy: int,
    mp: int,
    day: int,
    month: int,
    year: int,
)
    requires
        era == (days + 719468) / 146097,
        doe == (days + 719468) % 146097,
        0 <= yoe < 400,
        0 <= doy < 366,
        doy == 365 ==> is_leap(yoe + 1),
        doy == doe - (365 * yoe + yoe / 4 - yoe / 100),
        mp == (5 * doy + 2) / 153,
        day == doy - (153 * mp + 2) / 5 + 1,
        month == (if mp < 10 {
            mp + 3
        } else {
            mp - 9
        }),
        year == (if month <= 2 {
            yoe + era * 400 + 1
        } else {
            yoe + era * 400
        }),
    ensures
        is_date(year, month, day),
        day_number(year, month, day) == days,
{
    let y = yoe + 400 * era;
    lemma_march_day(doy, mp, day);
    lemma_days_before_march(y, era, yoe);
    lemma_months(y);
    lemma_months(y + 1);
    lemma_year_length(y);
    assert(is_leap(y + 1) == is_leap(yoe + 1));
}

/// The year, month and day that lie `days` days after 1970-01-01.
pub open spec fn date_on(days: int) -> (int, int, int) {
    choose|date: (int, int, int)|
        is_date(date.0, date.1, date.2) && #[trigger] day_number(date.0, date.1, date.2) == days
}

/// The date with a given day number is the date on that day.
pub proof fn lemma_date_on(y: int, m: int, d: int)
    requires
        is_date(y, m, d),
    ensures
        date_on(day_number(y, m, d)) == (y, m, d),
{
    let date = (y, m, d);
    assert(is_date(date.0, date.1, date.2));
    let found = date_on(day_number(y, m, d));
    assert(day_number(date.0, date.1, date.2) == day_number(y, m, d));
    lemma_date_is_unique(y, m, d, found.0, found.1, found.2);
}

/// A day number belongs to one date only.
pub proof fn lemma_date_is_unique(y1: int, m1: int, d1: int, y2: int, m2: int, d2: int)
    requires
        is_date(y1, m1, d1),
        is_date(y2, m2, d2),
        day_number(y1, m1, d1) == day_number(y2, m2, d2),
    ensures
        y1 == y2 && m1 == m2 && d1 == d2,
{
    lemma_months(y1);
    lemma_months(y2);
    lemma_year_length(y1);
    lemma_year_length(y2);
    if y1 < y2 {
        lemma_years_grow(y1 + 1, y2);
    } else if y2 < y1 {
        lemma_years_grow(y2 + 1, y1);
    }
}

/// A year is not farther from 1970 than its days are, in days.
pub proof fn lemma_year_not_below_day(y: int, m: int, d: int)
    requires
        is_date(y, m, d),
    ensures
        y < 1970 ==> y >= 1970 + day_number(y, m, d) - 366,
{
    lemma_months(y);
    if y < 1970 {
        assert(leap_years_to(1969) == 477);
        assert(leap_years_to(y - 1) <= 477) by {
            assert((y - 1) / 4 - (y - 1) / 100 <= 473);
        }
    }
}

proof fn lemma_years_grow(a: int, b: int)
    requires
        a <= b,
    ensures
        days_before_year(a) <= days_before_year(b),
    decreases b - a,
{
    if a < b {
        lemma_year_length(a);
        lemma_years_grow(a + 1, b);
    }
}

/// The calendar: the first day of 1970 is day zero; the day after another one of
/// the same month has the next number; the first of a month follows the last of
/// the month before it, and the first of January follows the last of December.
pub proof fn lemma_days_are_counted_on(y: int, m: int, d: int)
    requires
        1 <= m <= 12,
    ensures
        day_number(1970, 1, 1) == 0,
        day_number(y, m, d + 1) == day_number(y, m, d) + 1,
        m < 12 ==> day_number(y, m + 1, 1) == day_number(y, m, days_in_month(y, m)) + 1,
        day_number(y + 1, 1, 1) == day_number(y, 12, 31) + 1,
{
    lemma_months(y);
    lemma_months(1970);
    lemma_months(y + 1);
    lemma_year_length(y);
}

/// The lengths of the months: February has 28 days, and 29 in a leap year; April,
/// June, September and November have 30; the others have 31. Every fourth year
/// is a leap year, but of the full centuries only every fourth.
pub proof fn lemma_lengths_of_months(y: int)
    ensures
        days_in_month(y, 1) == 31,
        days_in_month(y, 2) == 28 <==> !is_leap(y),
        days_in_month(y, 2) == 29 <==> is_leap(y),
        days_in_month(y, 3) == 31,
        days_in_month(y, 4) == 30,
        days_in_month(y, 5) == 31,
        days_in_month(y, 6) == 30,
        days_in_month(y, 7) == 31,
        days_in_month(y, 8) == 31,
        days_in_month(y, 9) == 30,
        days_in_month(y, 10) == 31,
        days_in_month(y, 11) == 30,
        days_in_month(y, 12) == 31,
        is_leap(y) <==> y % 4 == 0 && (y % 100 == 0 ==> y % 400 == 0),
{
    assert(y % 400 == 0 ==> y % 4 == 0);
}

/// A date has a month of the year and a day of that month.
pub proof fn lemma_dates_exist(y: int, m: int, d: int)
    ensures
        is_date(y, m, d) <==> 1 <= m <= 12 && 1 <= d <= days_in_month(y, m),
{
}

} // verus!
