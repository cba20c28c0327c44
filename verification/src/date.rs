//! The proleptic Gregorian calendar, counted in days from 1970-01-01, and the
//! conversion of Unix timestamps to `YYYY-MM-DD` date strings.
use vstd::arithmetic::div_mod::*;
use vstd::prelude::*;

use crate::text::{push_padded, signed_padded_text, signed_zero_padded, zero_padded};

verus! {

/// Seconds in one UTC day.
pub const SECS_PER_DAY: i64 = 86400;

// ---------------------------------------------------------------------------
// The calendar
// ---------------------------------------------------------------------------

pub open spec fn is_leap_year(y: int) -> bool {
    y % 4 == 0 && (y % 100 != 0 || y % 400 == 0)
}

pub open spec fn year_length(y: int) -> int {
    if is_leap_year(y) { 366 } else { 365 }
}

pub open spec fn days_in_month(y: int, m: int) -> int {
    if m == 2 {
        if is_leap_year(y) { 29 } else { 28 }
    } else if m == 4 || m == 6 || m == 9 || m == 11 {
        30
    } else {
        31
    }
}

/// `(y, m, d)` names a day of the calendar: a month from 1 to 12 and a day
/// that the month has.
pub open spec fn is_valid_date(y: int, m: int, d: int) -> bool {
    1 <= m <= 12 && 1 <= d <= days_in_month(y, m)
}

/// Days from 1970-01-01 to the first of January of year `y` (negative
/// before 1970).
pub open spec fn days_before_year(y: int) -> int
    decreases (if y >= 1970 { y - 1970 } else { 1970 - y }),
{
    if y == 1970 {
        0
    } else if y > 1970 {
        days_before_year(y - 1) + year_length(y - 1)
    } else {
        days_before_year(y + 1) - year_length(y)
    }
}

/// Days of year `y` that come before the first of month `m`.
pub open spec fn days_before_month(y: int, m: int) -> int
    decreases m,
{
    if m <= 1 {
        0
    } else {
        days_before_month(y, m - 1) + days_in_month(y, m - 1)
    }
}

/// The number of the day `(y, m, d)`, counted from 1970-01-01 (day 0).
pub open spec fn epoch_day(y: int, m: int, d: int) -> int {
    days_before_year(y) + days_before_month(y, m) + d - 1
}

/// The day, counted from 1970-01-01, on which the second `secs` of Unix
/// time falls (the quotient is rounded down).
pub open spec fn day_of_secs(secs: int) -> int {
    secs / 86400
}

pub open spec fn is_date_of_day(day: int, y: int, m: int, d: int) -> bool {
    is_valid_date(y, m, d) && epoch_day(y, m, d) == day
}

/// The calendar date of day number `day`; `lemma_every_day_has_one_date`
/// shows that there is exactly one.
pub open spec fn civil_date(day: int) -> (int, int, int) {
    choose|y: int, m: int, d: int| is_date_of_day(day, y, m, d)
}

/// `YYYY-MM-DD`, formatted as `{:04}-{:02}-{:02}` formats it.
pub open spec fn date_text(y: int, m: int, d: int) -> Seq<char> {
    signed_zero_padded(y, 4) + seq!['-'] + zero_padded(m as nat, 2) + seq!['-'] + zero_padded(
        d as nat,
        2,
    )
}

/// The UTC date, as `YYYY-MM-DD`, of the Unix time `secs`.
pub open spec fn date_of_secs(secs: int) -> Seq<char> {
    let (y, m, d) = civil_date(day_of_secs(secs));
    date_text(y, m, d)
}

// ---------------------------------------------------------------------------
// Closed forms
// ---------------------------------------------------------------------------

spec fn leap_years_through(y: int) -> int {
    y / 4 - y / 100 + y / 400
}

proof fn lemma_leap_years_step(y: int)
    ensures
        leap_years_through(y) == leap_years_through(y - 1) + (if is_leap_year(y) { 1int } else { 0int }),
{
    lemma_fundamental_div_mod(y, 4);
    lemma_fundamental_div_mod(y - 1, 4);
    lemma_fundamental_div_mod(y, 100);
    lemma_fundamental_div_mod(y - 1, 100);
    lemma_fundamental_div_mod(y, 400);
    lemma_fundamental_div_mod(y - 1, 400);
    assert(y / 4 - (y - 1) / 4 == (if y % 4 == 0 { 1int } else { 0int }));
    assert(y / 100 - (y - 1) / 100 == (if y % 100 == 0 { 1int } else { 0int }));
    assert(y / 400 - (y - 1) / 400 == (if y % 400 == 0 { 1int } else { 0int }));
}

proof fn lemma_days_before_year_closed(y: int)
    ensures
        days_before_year(y) == 365 * (y - 1970) + leap_years_through(y - 1) - leap_years_through(1969),
    decreases (if y >= 1970 { y - 1970 } else { 1970 - y }),
{
    if y > 1970 {
        lemma_days_before_year_closed(y - 1);
        lemma_leap_years_step(y - 1);
    } else if y < 1970 {
        lemma_days_before_year_closed(y + 1);
        lemma_leap_years_step(y);
    }
}

proof fn lemma_days_before_year_step(y: int)
    ensures
        days_before_year(y + 1) == days_before_year(y) + year_length(y),
{
    lemma_days_before_year_closed(y);
    lemma_days_before_year_closed(y + 1);
    lemma_leap_years_step(y);
}

proof fn lemma_days_before_year_monotonic(a: int, b: int)
    requires
        a <= b,
    ensures
        days_before_year(a) + (b - a) * 365 <= days_before_year(b),
    decreases b - a,
{
    if a < b {
        lemma_days_before_year_monotonic(a, b - 1);
        lemma_days_before_year_step(b - 1);
    }
}

spec fn month_table(m: int) -> int {
    if m == 1 {
        0
    } else if m == 2 {
        31
    } else if m == 3 {
        59
    } else if m == 4 {
        90
    } else if m == 5 {
        120
    } else if m == 6 {
        151
    } else if m == 7 {
        181
    } else if m == 8 {
        212
    } else if m == 9 {
        243
    } else if m == 10 {
        273
    } else if m == 11 {
        304
    } else {
        334
    }
}

proof fn lemma_days_before_month_closed(y: int, m: int)
    requires
        1 <= m <= 13,
    ensures
        m <= 12 ==> days_before_month(y, m) == month_table(m) + (if m > 2 && is_leap_year(y) { 1int } else { 0int }),
        m == 13 ==> days_before_month(y, m) == year_length(y),
{
    reveal_with_fuel(days_before_month, 13);
}

/// The day number in the calendar that starts its years on the first of
/// March (`ym` is the year of that March, `mp` counts months from March).
spec fn march_day_number(ym: int, mp: int, d: int) -> int {
    365 * ym + ym / 4 - ym / 100 + ym / 400 + (153 * mp + 2) / 5 + d - 1 - 719468
}

spec fn march_year(y: int, m: int) -> int {
    if m <= 2 { y - 1 } else { y }
}

spec fn march_month(m: int) -> int {
    if m > 2 { m - 3 } else { m + 9 }
}

proof fn lemma_epoch_day_march(y: int, m: int, d: int)
    requires
        1 <= m <= 12,
    ensures
        epoch_day(y, m, d) == march_day_number(march_year(y, m), march_month(m), d),
{
    lemma_days_before_year_closed(y);
    lemma_days_before_month_closed(y, m);
    lemma_leap_years_step(y);
}

// ---------------------------------------------------------------------------
// From a day number to a date
// ---------------------------------------------------------------------------

/// The year of an era of 400 March-based years in which day `doe` of the
/// era falls, and that the day is inside it.
proof fn lemma_year_of_era(doe: int)
    requires
        0 <= doe < 146097,
    ensures
        ({
            let yoe = (doe - doe / 1460 + doe / 36524 - doe / 146096) / 365;
            let start = 365 * yoe + yoe / 4 - yoe / 100;
            &&& 0 <= yoe < 400
            &&& start <= doe
            &&& doe < start + 365 + (if (yoe + 1) % 4 == 0 && ((yoe + 1) % 100 != 0 || yoe == 399) {
                1int
            } else {
                0int
            })
        }),
{
}

/// The month (counted from March) and day in which day `doy` of a
/// March-based year falls.
proof fn lemma_month_of_year(doy: int, leap: bool)
    requires
        0 <= doy < 365 + (if leap { 1int } else { 0int }),
    ensures
        ({
            let mp = (5 * doy + 2) / 153;
            let d = doy - (153 * mp + 2) / 5 + 1;
            &&& 0 <= mp <= 11
            &&& 1 <= d
            &&& mp == 11 ==> d <= (if leap { 29int } else { 28int })
            &&& (mp == 1 || mp == 3 || mp == 6 || mp == 8) ==> d <= 30
            &&& d <= 31
        }),
{
}

/// The date of day number `day`, as the era arithmetic computes it.
spec fn civil_from_days_spec(day: int) -> (int, int, int) {
    let z = day + 719468;
    let era = z / 146097;
    let doe = z - era * 146097;
    let yoe = (doe - doe / 1460 + doe / 36524 - doe / 146096) / 365;
    let doy = doe - (365 * yoe + yoe / 4 - yoe / 100);
    let mp = (5 * doy + 2) / 153;
    let d = doy - (153 * mp + 2) / 5 + 1;
    let m = if mp < 10 { mp + 3 } else { mp - 9 };
    let y = yoe + era * 400 + (if m <= 2 { 1int } else { 0int });
    (y, m, d)
}

proof fn lemma_civil_from_days_spec(day: int)
    ensures
        ({
            let (y, m, d) = civil_from_days_spec(day);
            is_date_of_day(day, y, m, d)
        }),
{
    let z = day + 719468;
    let era = z / 146097;
    let doe = z - era * 146097;
    lemma_fundamental_div_mod(z, 146097);
    assert(0 <= doe < 146097);
    let yoe = (doe - doe / 1460 + doe / 36524 - doe / 146096) / 365;
    lemma_year_of_era(doe);
    let doy = doe - (365 * yoe + yoe / 4 - yoe / 100);
    let leap = (yoe + 1) % 4 == 0 && ((yoe + 1) % 100 != 0 || yoe == 399);
    lemma_month_of_year(doy, leap);
    let mp = (5 * doy + 2) / 153;
    let d = doy - (153 * mp + 2) / 5 + 1;
    let m = if mp < 10 { mp + 3 } else { mp - 9 };
    let y = yoe + era * 400 + (if m <= 2 { 1int } else { 0int });
    let ym = yoe + era * 400;
    assert(is_leap_year(ym + 1) == leap);
    assert(ym / 4 == era * 100 + yoe / 4);
    assert(ym / 100 == era * 4 + yoe / 100);
    assert(ym / 400 == era);
    lemma_epoch_day_march(y, m, d);
    assert(march_year(y, m) == ym);
    assert(march_month(m) == mp);
}

/// Every valid date comes before the first day of the next year.
proof fn lemma_day_within_year(y: int, m: int, d: int)
    requires
        is_valid_date(y, m, d),
    ensures
        days_before_year(y) <= epoch_day(y, m, d) < days_before_year(y + 1),
{
    lemma_days_before_month_closed(y, m);
    lemma_days_before_year_step(y);
}

/// Two valid dates with the same day number are the same date.
pub proof fn lemma_epoch_day_injective(y1: int, m1: int, d1: int, y2: int, m2: int, d2: int)
    requires
        is_valid_date(y1, m1, d1),
        is_valid_date(y2, m2, d2),
        epoch_day(y1, m1, d1) == epoch_day(y2, m2, d2),
    ensures
        y1 == y2 && m1 == m2 && d1 == d2,
{
    lemma_day_within_year(y1, m1, d1);
    lemma_day_within_year(y2, m2, d2);
    if y1 < y2 {
        lemma_days_before_year_monotonic(y1 + 1, y2);
    } else if y2 < y1 {
        lemma_days_before_year_monotonic(y2 + 1, y1);
    } else {
        lemma_days_before_month_closed(y1, m1);
        lemma_days_before_month_closed(y1, m2);
    }
}

/// Every day number is the number of exactly one valid date, and
/// `civil_date` gives that date.
pub proof fn lemma_every_day_has_one_date(day: int)
    ensures
        ({
            let (y, m, d) = civil_date(day);
            &&& is_date_of_day(day, y, m, d)
            &&& forall|y2: int, m2: int, d2: int|
                is_date_of_day(day, y2, m2, d2) ==> y2 == y && m2 == m && d2 == d
        }),
{
    lemma_civil_from_days_spec(day);
    let (y0, m0, d0) = civil_from_days_spec(day);
    assert(is_date_of_day(day, y0, m0, d0));
    let (y, m, d) = civil_date(day);
    assert forall|y2: int, m2: int, d2: int| is_date_of_day(day, y2, m2, d2) implies y2 == y && m2
        == m && d2 == d by {
        lemma_epoch_day_injective(y, m, d, y2, m2, d2);
    }
}

/// The date of a valid `(y, m, d)`'s own day number is `(y, m, d)`.
pub proof fn lemma_civil_date_of_epoch_day(y: int, m: int, d: int)
    requires
        is_valid_date(y, m, d),
    ensures
        civil_date(epoch_day(y, m, d)) == (y, m, d),
{
    lemma_every_day_has_one_date(epoch_day(y, m, d));
    assert(is_date_of_day(epoch_day(y, m, d), y, m, d));
}

/// The calendar day after `(y, m, d)`.
pub open spec fn next_date(y: int, m: int, d: int) -> (int, int, int) {
    if d < days_in_month(y, m) {
        (y, m, d + 1)
    } else if m < 12 {
        (y, m + 1, 1)
    } else {
        (y + 1, 1, 1)
    }
}

/// Day numbers and dates advance together: the date of the day after `day`
/// is the calendar day after the date of `day`.
pub proof fn lemma_next_day_is_next_date(day: int)
    ensures
        ({
            let (y, m, d) = civil_date(day);
            civil_date(day + 1) == next_date(y, m, d)
        }),
{
    lemma_every_day_has_one_date(day);
    let (y, m, d) = civil_date(day);
    let (y2, m2, d2) = next_date(y, m, d);
    lemma_days_before_month_closed(y, m);
    if d >= days_in_month(y, m) && m < 12 {
        lemma_days_before_month_closed(y, m + 1);
    } else if d >= days_in_month(y, m) {
        lemma_days_before_month_closed(y, 13);
        lemma_days_before_year_step(y);
        lemma_days_before_month_closed(y + 1, 1);
    }
    assert(is_date_of_day(day + 1, y2, m2, d2));
    lemma_civil_date_of_epoch_day(y2, m2, d2);
}

/// `(y1, m1, d1)` is `(y2, m2, d2)` or comes before it in the calendar.
pub open spec fn date_le(y1: int, m1: int, d1: int, y2: int, m2: int, d2: int) -> bool {
    y1 < y2 || (y1 == y2 && (m1 < m2 || (m1 == m2 && d1 <= d2)))
}

/// Later dates have larger day numbers.
pub proof fn lemma_epoch_day_increasing(y1: int, m1: int, d1: int, y2: int, m2: int, d2: int)
    requires
        is_valid_date(y1, m1, d1),
        is_valid_date(y2, m2, d2),
        date_le(y1, m1, d1, y2, m2, d2),
        !(y1 == y2 && m1 == m2 && d1 == d2),
    ensures
        epoch_day(y1, m1, d1) < epoch_day(y2, m2, d2),
{
    lemma_day_within_year(y1, m1, d1);
    lemma_day_within_year(y2, m2, d2);
    if y1 < y2 {
        lemma_days_before_year_monotonic(y1 + 1, y2);
    } else {
        lemma_days_before_month_closed(y1, m1);
        lemma_days_before_month_closed(y1, m2);
    }
}

/// The day numbers of 0000-01-01 and of 9999-12-31.
pub proof fn lemma_four_digit_years_days()
    ensures
        epoch_day(0, 1, 1) == -719528,
        epoch_day(9999, 12, 31) == 2932896,
{
    lemma_days_before_year_closed(0);
    lemma_days_before_year_closed(9999);
    lemma_days_before_month_closed(0, 1);
    lemma_days_before_month_closed(9999, 12);
}

// ---------------------------------------------------------------------------
// Executable conversion
// ---------------------------------------------------------------------------

/// `a / b`, rounded down.
fn floor_div(a: i64, b: i64) -> (q: i64)
    requires
        b > 0,
    ensures
        q == a as int / b as int,
{
    if a >= 0 {
        a / b
    } else {
        let n = -(a + 1);
        let qn = n / b;
        proof {
            let r = n as int % b as int;
            lemma_fundamental_div_mod(n as int, b as int);
            assert(a as int == (-(qn as int) - 1) * b as int + (b - 1 - r)) by (nonlinear_arith)
                requires
                    n as int == b as int * qn as int + r,
                    a as int == -(n as int) - 1,
            ;
            lemma_fundamental_div_mod_converse(
                a as int,
                b as int,
                -(qn as int) - 1,
                b - 1 - (n as int % b as int),
            );
        }
        -qn - 1
    }
}

/// The largest day number that a Unix time in `i64` seconds reaches, with
/// room to spare.
spec fn day_bound() -> int {
    200_000_000_000_000
}

fn civil_from_days(days: i64) -> (r: (i64, u64, u64))
    requires
        -day_bound() <= days <= day_bound(),
    ensures
        (r.0 as int, r.1 as int, r.2 as int) == civil_from_days_spec(days as int),
        1 <= r.1 <= 12,
        1 <= r.2 <= 31,
{
    let z = days + 719468;
    let era = floor_div(z, 146097);
    proof {
        lemma_fundamental_div_mod(z as int, 146097);
    }
    let doe_i = z - era * 146097;
    let doe = doe_i as u64;
    proof {
        lemma_year_of_era(doe as int);
    }
    let yoe = (doe - doe / 1460 + doe / 36524 - doe / 146096) / 365;
    let doy = doe - (365 * yoe + yoe / 4 - yoe / 100);
    proof {
        let leap = (yoe + 1) % 4 == 0 && ((yoe + 1) % 100 != 0 || yoe == 399);
        lemma_month_of_year(doy as int, leap);
    }
    let mp = (5 * doy + 2) / 153;
    let d = doy - (153 * mp + 2) / 5 + 1;
    let m = if mp < 10 { mp + 3 } else { mp - 9 };
    let y = yoe as i64 + era * 400;
    let y = if m <= 2 { y + 1 } else { y };
    (y, m, d)
}

/// Converts a Unix timestamp (seconds) to the `YYYY-MM-DD` UTC date string of
/// the day it falls on.
pub fn unix_secs_to_date(secs: i64) -> (text: String)
    ensures
        text@ == date_of_secs(secs as int),
{
    let days = floor_div(secs, SECS_PER_DAY);
    proof {
        lemma_fundamental_div_mod(secs as int, 86400);
    }
    let (y, m, d) = civil_from_days(days);
    proof {
        lemma_civil_from_days_spec(days as int);
        lemma_every_day_has_one_date(days as int);
    }
    let mut text = signed_padded_text(y, 4);
    text.append("-");
    push_padded(&mut text, m, 2);
    text.append("-");
    push_padded(&mut text, d, 2);
    proof {
        reveal_strlit("-");
    }
    text
}

} // verus!
