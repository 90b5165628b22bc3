//! The proleptic Gregorian calendar: from a count of days since the Unix
//! epoch to year, month and day.
use vstd::prelude::*;

verus! {

/// Whether `year` is a leap year: every fourth year, except the centuries
/// that are not a multiple of 400.
pub open spec fn is_leap_year(year: int) -> bool {
    year % 4 == 0 && (year % 100 != 0 || year % 400 == 0)
}

/// The number of days of `year`.
pub open spec fn days_in_year(year: int) -> int {
    if is_leap_year(year) {
        366
    } else {
        365
    }
}

/// The number of days of the month `month` of `year`.
pub open spec fn days_in_month(year: int, month: int) -> int {
    if month == 2 {
        if is_leap_year(year) {
            29
        } else {
            28
        }
    } else if month == 4 || month == 6 || month == 9 || month == 11 {
        30
    } else {
        31
    }
}

/// The number of leap years among the years from 1 up to, and without,
/// `year`; for years before that, the negated number of leap years from
/// `year` up to 0.
pub open spec fn leap_years_before(year: int) -> int {
    (year - 1) / 4 - (year - 1) / 100 + (year - 1) / 400
}

/// The number of days from the first day of 1970 to the first day of
/// `year`, negative for earlier years.
pub open spec fn days_before_year(year: int) -> int {
    365 * (year - 1970) + leap_years_before(year) - leap_years_before(1970)
}

/// The number of days of `year` that lie before its month `month`.
pub open spec fn days_before_month(year: int, month: int) -> int {
    let leap_day: int = if month > 2 && is_leap_year(year) {
        1
    } else {
        0
    };
    leap_day + if month <= 1 {
        0int
    } else if month == 2 {
        31
    } else if month == 3 {
        59
    } else if month == 4 {
        90
    } else if month == 5 {
        120
    } else if month == 6 {
        151
    } else if month == 7 {
        181
    } else if month == 8 {
        212
    } else if month == 9 {
        243
    } else if month == 10 {
        273
    } else if month == 11 {
        304
    } else if month == 12 {
        334
    } else {
        365
    }
}

/// Whether there is a day `day` in the month `month` of `year`.
pub open spec fn is_date(year: int, month: int, day: int) -> bool {
    1 <= month <= 12 && 1 <= day <= days_in_month(year, month)
}

/// The number of days from the first day of 1970 to the given date,
/// negative for earlier dates.
pub open spec fn days_from_civil(year: int, month: int, day: int) -> int {
    days_before_year(year) + days_before_month(year, month) + day - 1
}

/// Days in 400 years, after which the calendar repeats.
pub const DAYS_PER_ERA: i128 = 146_097;

/// Days from the first day of 1970 to the first day of 2000.
pub const DAYS_TO_2000: i128 = 10_957;

/// One year follows the other: the first day of the next year comes as
/// many days after the first day of `year` as `year` has days.
pub proof fn lemma_year_step(year: int)
    ensures
        days_before_year(year + 1) == days_before_year(year) + days_in_year(year),
{
}

/// One month follows the other, and twelve months make the year.
pub proof fn lemma_month_step(year: int, month: int)
    requires
        1 <= month <= 12,
    ensures
        days_before_month(year, month + 1) == days_before_month(year, month) + days_in_month(
            year,
            month,
        ),
        days_before_month(year, 1) == 0,
        days_before_month(year, 13) == days_in_year(year),
{
}

/// The calendar repeats every 400 years, which have 146097 days, and the
/// year 2000 starts 10957 days after the epoch.
pub proof fn lemma_era(era: int, year_of_era: int)
    ensures
        days_before_year(2000 + 400 * era) == 10_957 + 146_097 * era,
        is_leap_year(2000 + 400 * era + year_of_era) == is_leap_year(year_of_era),
{
    let last = 1999 + 400 * era;
    assert(last / 4 == 499 + 100 * era);
    assert(last / 100 == 19 + 4 * era);
    assert(last / 400 == 4 + era);
    let year = 2000 + 400 * era + year_of_era;
    assert(year % 4 == year_of_era % 4);
    assert(year % 100 == year_of_era % 100);
    assert(year % 400 == year_of_era % 400);
}

/// A date is determined by its count of days: different dates lie on
/// different days.
pub proof fn lemma_days_from_civil_injective(
    year: int,
    month: int,
    day: int,
    other_year: int,
    other_month: int,
    other_day: int,
)
    requires
        is_date(year, month, day),
        is_date(other_year, other_month, other_day),
        days_from_civil(year, month, day) == days_from_civil(other_year, other_month, other_day),
    ensures
        year == other_year,
        month == other_month,
        day == other_day,
{
    lemma_day_of_year_bounds(year, month, day);
    lemma_day_of_year_bounds(other_year, other_month, other_day);
    if year < other_year {
        lemma_years_increase(year + 1, other_year);
        lemma_year_step(year);
    } else if other_year < year {
        lemma_years_increase(other_year + 1, year);
        lemma_year_step(other_year);
    } else {
        if month < other_month {
            lemma_months_increase(year, month + 1, other_month);
            lemma_month_step(year, month);
        } else if other_month < month {
            lemma_months_increase(year, other_month + 1, month);
            lemma_month_step(year, other_month);
        }
    }
}

proof fn lemma_day_of_year_bounds(year: int, month: int, day: int)
    requires
        is_date(year, month, day),
    ensures
        0 <= days_before_month(year, month) + day - 1 < days_in_year(year),
{
}

proof fn lemma_years_increase(year: int, later: int)
    requires
        year <= later,
    ensures
        days_before_year(year) <= days_before_year(later),
    decreases later - year,
{
    if year < later {
        lemma_years_increase(year, later - 1);
        lemma_year_step(later - 1);
    }
}

proof fn lemma_months_increase(year: int, month: int, later: int)
    requires
        1 <= month <= later <= 13,
    ensures
        days_before_month(year, month) <= days_before_month(year, later),
{
}

/// Tells whether `year_of_era`, counted from a year that is a multiple of
/// 400, is a leap year.
fn leap_year_of_era(year_of_era: u32) -> (leap: bool)
    requires
        year_of_era < 400,
    ensures
        leap == is_leap_year(year_of_era as int),
{
    year_of_era % 4 == 0 && (year_of_era % 100 != 0 || year_of_era == 0)
}

/// The number of days of the month `month` of a year that is a leap year
/// or not.
fn month_length(leap: bool, month: u8) -> (days: u32)
    requires
        1 <= month <= 12,
    ensures
        forall|year: int| is_leap_year(year) == leap ==> days == #[trigger] days_in_month(
            year,
            month as int,
        ),
{
    if month == 2 {
        if leap {
            29
        } else {
            28
        }
    } else if month == 4 || month == 6 || month == 9 || month == 11 {
        30
    } else {
        31
    }
}

/// The date of the day that lies `days` days after the first day of 1970,
/// or before it if `days` is negative, as year, month and day of the month.
pub fn civil_from_days(days: i64) -> (date: (i64, u8, u8))
    ensures
        is_date(date.0 as int, date.1 as int, date.2 as int),
        days_from_civil(date.0 as int, date.1 as int, date.2 as int) == days,
{
    // Eras of 400 years are counted from one far enough in the past for
    // every count of days to fall into an era that is not negative.
    let shift: i128 = 70_000_000_000_000;
    let since: i128 = (days as i128) - DAYS_TO_2000 + shift * DAYS_PER_ERA;
    let shifted_era: i128 = since / DAYS_PER_ERA;
    let day_of_era: i128 = since % DAYS_PER_ERA;
    let ghost era: int = shifted_era - shift;
    let ghost first_year: int = 2000 + 400 * era;
    proof {
        lemma_era(era, 0);
        lemma_era(era + 1, 0);
        assert(since == DAYS_PER_ERA * shifted_era + day_of_era) by (nonlinear_arith)
            requires
                shifted_era == since / DAYS_PER_ERA,
                day_of_era == since % DAYS_PER_ERA,
                DAYS_PER_ERA == 146_097,
        ;
        assert(days == days_before_year(first_year) + day_of_era);
    }
    let mut year_of_era: u32 = 0;
    let mut day_of_year: u32 = day_of_era as u32;
    loop
        invariant
            first_year == 2000 + 400 * era,
            year_of_era < 400,
            days == days_before_year(first_year + year_of_era) + day_of_year,
            days < days_before_year(first_year + 400),
            day_of_year <= 146_097,
        ensures
            year_of_era < 400,
            days == days_before_year(first_year + year_of_era) + day_of_year,
            day_of_year < days_in_year(first_year + year_of_era),
        decreases 400 - year_of_era,
    {
        let leap = leap_year_of_era(year_of_era);
        let length: u32 = if leap {
            366
        } else {
            365
        };
        proof {
            lemma_era(era, year_of_era as int);
            lemma_year_step(first_year + year_of_era);
        }
        if day_of_year < length {
            break ;
        }
        proof {
            if year_of_era == 399 {
                assert(false);
            }
        }
        day_of_year = day_of_year - length;
        year_of_era = year_of_era + 1;
    }
    let leap = leap_year_of_era(year_of_era);
    let ghost year: int = first_year + year_of_era;
    proof {
        lemma_era(era, year_of_era as int);
    }
    let mut month: u8 = 1;
    let mut day_of_month: u32 = day_of_year;
    loop
        invariant
            1 <= month <= 12,
            leap == is_leap_year(year),
            day_of_year == days_before_month(year, month as int) + day_of_month,
            day_of_year < days_in_year(year),
        ensures
            1 <= month <= 12,
            day_of_year == days_before_month(year, month as int) + day_of_month,
            day_of_month < days_in_month(year, month as int),
        decreases 12 - month,
    {
        let length: u32 = month_length(leap, month);
        proof {
            lemma_month_step(year, month as int);
        }
        if day_of_month < length {
            break ;
        }
        day_of_month = day_of_month - length;
        month = month + 1;
    }
    let year_number: i128 = 2000 + 400 * (shifted_era - shift) + (year_of_era as i128);
    (year_number as i64, month, (day_of_month + 1) as u8)
}

} // verus!
