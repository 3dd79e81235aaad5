//! The proleptic Gregorian calendar: how many days and seconds a calendar
//! date and wall-clock time lie from the Unix epoch, 1970-01-01 00:00:00.
use vstd::prelude::*;

use vstd::arithmetic::div_mod::{lemma_fundamental_div_mod, lemma_fundamental_div_mod_converse};

verus! {

/// Leap years: every fourth year, except centuries not divisible by 400.
pub open spec fn is_leap_year(y: int) -> bool {
    (y % 4 == 0 && y % 100 != 0) || y % 400 == 0
}

/// The number of days in month `m` (1 to 12) of year `y`.
pub open spec fn month_length(y: int, m: int) -> int {
    if m == 2 {
        if is_leap_year(y) {
            29
        } else {
            28
        }
    } else if m == 4 || m == 6 || m == 9 || m == 11 {
        30
    } else {
        31
    }
}

/// `y-m-d` is a date of the calendar.
pub open spec fn valid_date(y: int, m: int, d: int) -> bool {
    1 <= m <= 12 && 1 <= d <= month_length(y, m)
}

/// The days from 1970-01-01 to `y-m-d`: the year is counted from March, so
/// that February's length only matters at the end of the 400-year cycle
/// (`era`), in which the day `doe` of the cycle is counted.
pub open spec fn days_from_civil(y: int, m: int, d: int) -> int {
    let yy = if m <= 2 {
        y - 1
    } else {
        y
    };
    let era = yy / 400;
    let yoe = yy - era * 400;
    let mp = if m > 2 {
        m - 3
    } else {
        m + 9
    };
    let doy = (153 * mp + 2) / 5 + d - 1;
    let doe = yoe * 365 + yoe / 4 - yoe / 100 + doy;
    era * 146097 + doe - 719468
}

/// The seconds from the epoch to `y-m-d h:mi:s`, read as UTC.
pub open spec fn seconds_from_civil(y: int, m: int, d: int, h: int, mi: int, s: int) -> int {
    days_from_civil(y, m, d) * 86400 + h * 3600 + mi * 60 + s
}

// ---------------------------------------------------------------------------
// Laws of the calendar
// ---------------------------------------------------------------------------

/// The epoch is day 0.
pub proof fn lemma_epoch()
    ensures
        days_from_civil(1970, 1, 1) == 0,
        seconds_from_civil(1970, 1, 1, 0, 0, 0) == 0,
{
    assert(1969int / 400 == 4);
    assert((153int * 10 + 2) / 5 == 306);
    assert(369int / 4 == 92 && 369int / 100 == 3);
}

/// The next day of a month is one day later.
pub proof fn lemma_next_day(y: int, m: int, d: int)
    ensures
        days_from_civil(y, m, d + 1) == days_from_civil(y, m, d) + 1,
{
}

/// The first of a month is the first of the month before plus that month's
/// length, leap years included.
pub proof fn lemma_next_month(y: int, m: int)
    requires
        1 <= m <= 11,
    ensures
        days_from_civil(y, m + 1, 1) == days_from_civil(y, m, 1) + month_length(y, m),
{
    if m == 2 {
        lemma_february(y);
    } else if m == 1 {
        assert((153int * 11 + 2) / 5 == 337 && (153int * 10 + 2) / 5 == 306);
    } else if m == 3 {
        assert((153int * 1 + 2) / 5 == 31 && (153int * 0 + 2) / 5 == 0);
    } else if m == 4 {
        assert((153int * 2 + 2) / 5 == 61 && (153int * 1 + 2) / 5 == 31);
    } else if m == 5 {
        assert((153int * 3 + 2) / 5 == 92 && (153int * 2 + 2) / 5 == 61);
    } else if m == 6 {
        assert((153int * 4 + 2) / 5 == 122 && (153int * 3 + 2) / 5 == 92);
    } else if m == 7 {
        assert((153int * 5 + 2) / 5 == 153 && (153int * 4 + 2) / 5 == 122);
    } else if m == 8 {
        assert((153int * 6 + 2) / 5 == 184 && (153int * 5 + 2) / 5 == 153);
    } else if m == 9 {
        assert((153int * 7 + 2) / 5 == 214 && (153int * 6 + 2) / 5 == 184);
    } else if m == 10 {
        assert((153int * 8 + 2) / 5 == 245 && (153int * 7 + 2) / 5 == 214);
    } else {
        assert((153int * 9 + 2) / 5 == 275 && (153int * 8 + 2) / 5 == 245);
    }
}

/// March 1st comes 28 days after February 1st, 29 in a leap year.
proof fn lemma_february(y: int)
    ensures
        days_from_civil(y, 3, 1) == days_from_civil(y, 2, 1) + month_length(y, 2),
{
    let a = y - 1;
    let ea = a / 400;
    let ya = a - ea * 400;
    let eb = y / 400;
    let yb = y - eb * 400;
    lemma_fundamental_div_mod(a, 400);
    lemma_fundamental_div_mod(y, 400);
    assert((153int * 11 + 2) / 5 == 337 && (153int * 0 + 2) / 5 == 0);
    if ya == 399 {
        lemma_fundamental_div_mod_converse(y, 400, ea + 1, 0);
        assert(eb == ea + 1 && yb == 0);
        assert(y % 400 == 0);
        assert(is_leap_year(y));
        assert(399int / 4 == 99 && 399int / 100 == 3);
    } else {
        lemma_fundamental_div_mod_converse(y, 400, ea, ya + 1);
        assert(eb == ea && yb == ya + 1);
        lemma_fundamental_div_mod(yb, 4);
        lemma_fundamental_div_mod(yb, 100);
        lemma_fundamental_div_mod(ya, 4);
        lemma_fundamental_div_mod(ya, 100);
        assert(y % 4 == yb % 4) by {
            lemma_fundamental_div_mod_converse(y, 4, eb * 100 + yb / 4, yb % 4);
        }
        assert(y % 100 == yb % 100) by {
            lemma_fundamental_div_mod_converse(y, 100, eb * 4 + yb / 100, yb % 100);
        }
        assert(y % 400 != 0);
        if yb % 4 == 0 {
            lemma_fundamental_div_mod_converse(ya, 4, yb / 4 - 1, 3);
        } else {
            lemma_fundamental_div_mod_converse(ya, 4, yb / 4, yb % 4 - 1);
        }
        if yb % 100 == 0 {
            lemma_fundamental_div_mod_converse(ya, 100, yb / 100 - 1, 99);
        } else {
            lemma_fundamental_div_mod_converse(ya, 100, yb / 100, yb % 100 - 1);
        }
    }
}

/// January 1st comes 31 days after December 1st of the year before.
pub proof fn lemma_next_year(y: int)
    ensures
        days_from_civil(y + 1, 1, 1) == days_from_civil(y, 12, 1) + 31,
{
    assert((153int * 10 + 2) / 5 == 306 && (153int * 9 + 2) / 5 == 275);
}

// ---------------------------------------------------------------------------
// Implementations
// ---------------------------------------------------------------------------

/// The days from 1970-01-01 to `year-month-day`.
pub fn days_from_civil_exec(year: i32, month: u32, day: u32) -> (r: i64)
    ensures
        r == days_from_civil(year as int, month as int, day as int),
        -1_000_000_000_000 <= r <= 3_000_000_000_000,
{
    let yy: i64 = if month <= 2 {
        year as i64 - 1
    } else {
        year as i64
    };
    // Shifted by a whole number of 400-year cycles so that it is not negative.
    let shifted: i64 = yy + 2_400_000_000;
    let era_shifted: i64 = shifted / 400;
    let yoe: i64 = shifted - era_shifted * 400;
    proof {
        lemma_fundamental_div_mod(shifted as int, 400);
        lemma_fundamental_div_mod_converse(yy as int, 400, era_shifted - 6_000_000, yoe as int);
    }
    let mp: i64 = if month > 2 {
        month as i64 - 3
    } else {
        month as i64 + 9
    };
    let doy: i64 = (153 * mp + 2) / 5 + day as i64 - 1;
    let doe: i64 = yoe * 365 + yoe / 4 - yoe / 100 + doy;
    assert(0 <= era_shifted <= 20_000_000);
    let era: i64 = era_shifted - 6_000_000;
    assert(-6_000_000 <= era <= 14_000_000);
    assert(-876_582_000_000 <= era * 146097 <= 2_045_358_000_000) by (nonlinear_arith)
        requires
            -6_000_000 <= era <= 14_000_000,
    ;
    era * 146097 + doe - 719468
}

/// The seconds from the epoch to `year-month-day hour:minute:second` taken
/// as UTC, less `offset` seconds.
pub fn seconds_from_civil_exec(
    year: i32,
    month: u32,
    day: u32,
    hour: u32,
    minute: u32,
    second: u32,
    offset: i32,
) -> (r: i64)
    ensures
        r == seconds_from_civil(
            year as int,
            month as int,
            day as int,
            hour as int,
            minute as int,
            second as int,
        ) - offset,
{
    let days = days_from_civil_exec(year, month, day);
    assert(-86_400_000_000_000_000 <= days * 86400 <= 259_200_000_000_000_000) by (nonlinear_arith)
        requires
            -1_000_000_000_000 <= days <= 3_000_000_000_000,
    ;
    days * 86400 + hour as i64 * 3600 + minute as i64 * 60 + second as i64 - offset as i64
}

} // verus!
