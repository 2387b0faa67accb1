//! Proleptic-Gregorian calendar arithmetic on plain integers.
//!
//! Dates are measured as day numbers counted from 0000-01-01 (day 0) up to
//! 9999-12-31 (day 3652424), so that the 1-based ordinals of the public
//! interface (counted from 0001-01-01) cover exactly [1, 3652059].

use vstd::prelude::*;
use vstd::arithmetic::div_mod::{
    lemma_fundamental_div_mod, lemma_fundamental_div_mod_converse_div,
    lemma_fundamental_div_mod_converse_mod,
};

verus! {

/// Total days in the supported range: years 0 through 9999.
pub const TOTAL_DAYS: i64 = 3652425;

/// Day number of 1970-01-01 (the Unix epoch) counted from 0000-01-01.
pub const EPOCH_DAY: i64 = 719528;

/// The proleptic-Gregorian leap-year rule.
pub open spec fn is_leap_year(y: int) -> bool {
    y % 4 == 0 && (y % 100 != 0 || y % 400 == 0)
}

pub open spec fn days_in_year(y: int) -> int {
    if is_leap_year(y) {
        366
    } else {
        365
    }
}

pub open spec fn days_in_month(y: int, m: int) -> int {
    if m == 2 {
        if is_leap_year(y) {
            29
        } else {
            28
        }
    } else if m == 4 || m == 6 || m == 9 || m == 11 {
        30
    } else {
        31
    }
}

/// Days in all years before `y`, counted from year 0.
pub open spec fn days_before_year(y: int) -> int
    decreases y,
{
    if y <= 0 {
        0
    } else {
        days_before_year(y - 1) + days_in_year(y - 1)
    }
}

/// Days in all months of year `y` before month `m`.
pub open spec fn days_before_month(y: int, m: int) -> int
    decreases m,
{
    if m <= 1 {
        0
    } else {
        days_before_month(y, m - 1) + days_in_month(y, m - 1)
    }
}

pub open spec fn valid_ymd(y: int, m: int, d: int) -> bool {
    &&& 0 <= y <= 9999
    &&& 1 <= m <= 12
    &&& 1 <= d <= days_in_month(y, m)
}

/// The day number of a civil date, counted from 0000-01-01.
pub open spec fn day_number(y: int, m: int, d: int) -> int {
    days_before_year(y) + days_before_month(y, m) + (d - 1)
}

/// Finds the year containing day-offset `n`, scanning from year `y`.
/// Returns the year and the remaining day-of-year.
pub open spec fn split_year(y: int, n: int) -> (int, int)
    decreases n,
{
    if n < days_in_year(y) {
        (y, n)
    } else {
        split_year(y + 1, n - days_in_year(y))
    }
}

/// Finds the month of year `y` containing day-of-year offset `n`, scanning
/// from month `m`. Returns the month and the remaining 0-based day-of-month.
pub open spec fn split_month(y: int, m: int, n: int) -> (int, int)
    decreases 12 - m,
{
    if m >= 12 || n < days_in_month(y, m) {
        (m, n)
    } else {
        split_month(y, m + 1, n - days_in_month(y, m))
    }
}

pub open spec fn year_of_day(n: int) -> int {
    split_year(0, n).0
}

pub open spec fn doy_of_day(n: int) -> int {
    split_year(0, n).1
}

pub open spec fn month_of_day(n: int) -> int {
    split_month(year_of_day(n), 1, doy_of_day(n)).0
}

pub open spec fn dom_of_day(n: int) -> int {
    split_month(year_of_day(n), 1, doy_of_day(n)).1 + 1
}

pub fn leap_year(y: i64) -> (r: bool)
    ensures
        r == is_leap_year(y as int),
{
    y % 4 == 0 && (y % 100 != 0 || y % 400 == 0)
}

pub fn year_len(y: i64) -> (r: i64)
    ensures
        r == days_in_year(y as int),
{
    if leap_year(y) {
        366
    } else {
        365
    }
}

pub fn month_len(y: i64, m: i64) -> (r: i64)
    ensures
        r == days_in_month(y as int, m as int),
{
    if m == 2 {
        if leap_year(y) {
            29
        } else {
            28
        }
    } else if m == 4 || m == 6 || m == 9 || m == 11 {
        30
    } else {
        31
    }
}

/// Every year has between 365 and 366 days, so `days_before_year` grows
/// strictly, and by at least 365 per year.
pub proof fn lemma_dby_bounds(a: int, b: int)
    requires
        0 <= a <= b,
    ensures
        days_before_year(b) - days_before_year(a) >= 365 * (b - a),
        days_before_year(b) - days_before_year(a) <= 366 * (b - a),
    decreases b - a,
{
    if a < b {
        lemma_dby_bounds(a, b - 1);
    }
}

pub fn days_before_year_exec(y: i64) -> (r: i64)
    requires
        0 <= y <= 10000,
    ensures
        r == days_before_year(y as int),
{
    let mut acc: i64 = 0;
    let mut i: i64 = 0;
    while i < y
        invariant
            0 <= i <= y <= 10000,
            acc == days_before_year(i as int),
        decreases y - i,
    {
        proof {
            lemma_dby_bounds(0, i as int);
        }
        acc = acc + year_len(i);
        i = i + 1;
    }
    acc
}

pub fn days_before_month_exec(y: i64, m: i64) -> (r: i64)
    requires
        1 <= m <= 13,
    ensures
        r == days_before_month(y as int, m as int),
{
    let mut acc: i64 = 0;
    let mut i: i64 = 1;
    while i < m
        invariant
            1 <= i <= m <= 13,
            acc == days_before_month(y as int, i as int),
            acc <= 31 * i,
        decreases m - i,
    {
        acc = acc + month_len(y, i);
        i = i + 1;
    }
    acc
}

/// The months of a year sum to the year's length.
pub proof fn lemma_months_fill_year(y: int)
    ensures
        days_before_month(y, 13) == days_in_year(y),
{
    reveal_with_fuel(days_before_month, 13);
}

/// `days_before_month` grows with the month.
pub proof fn lemma_dbm_monotonic(y: int, a: int, b: int)
    requires
        1 <= a <= b,
    ensures
        days_before_month(y, a) <= days_before_month(y, b),
        b <= 13 ==> days_before_month(y, b) - days_before_month(y, a) >= 28 * (b - a),
    decreases b - a,
{
    if a < b {
        lemma_dbm_monotonic(y, a, b - 1);
    }
}

/// A valid date's day number lies within its year's days.
pub proof fn lemma_day_number_in_year(y: int, m: int, d: int)
    requires
        valid_ymd(y, m, d),
    ensures
        days_before_year(y) <= day_number(y, m, d) < days_before_year(y + 1),
        days_before_month(y, m) <= day_number(y, m, d) - days_before_year(y),
{
    lemma_months_fill_year(y);
    lemma_dbm_monotonic(y, 1, m);
    lemma_dbm_monotonic(y, m + 1, 13);
    assert(days_before_month(y, m + 1) == days_before_month(y, m) + days_in_month(y, m));
    assert(days_before_year(y + 1) == days_before_year(y) + days_in_year(y));
}

pub fn day_number_exec(y: i64, m: i64, d: i64) -> (r: i64)
    requires
        valid_ymd(y as int, m as int, d as int),
    ensures
        r == day_number(y as int, m as int, d as int),
        0 <= r < TOTAL_DAYS,
{
    proof {
        lemma_day_number_in_year(y as int, m as int, d as int);
        lemma_dby_bounds(0, y as int);
        lemma_dby_bounds(y as int + 1, 10000);
        lemma_total_days();
    }
    days_before_year_exec(y) + days_before_month_exec(y, m) + (d - 1)
}

/// Closed form for `days_before_year`, used to evaluate it at the far end of
/// the supported range without unwinding ten thousand recursive steps.
pub open spec fn dby_closed(y: int) -> int {
    if y <= 0 {
        0
    } else {
        365 * y + (y - 1) / 4 - (y - 1) / 100 + (y - 1) / 400 + 1
    }
}

/// Dividing one more unit either keeps the quotient or, exactly on a
/// multiple, raises it by one.
proof fn lemma_div_step(a: int, d: int)
    requires
        1 <= a,
        1 <= d,
    ensures
        a / d - (a - 1) / d == if a % d == 0 {
            1int
        } else {
            0int
        },
{
    let q = (a - 1) / d;
    let r = (a - 1) % d;
    lemma_fundamental_div_mod(a - 1, d);
    if r + 1 < d {
        lemma_fundamental_div_mod_converse_div(a, d, q, r + 1);
        lemma_fundamental_div_mod_converse_mod(a, d, q, r + 1);
    } else {
        assert(a == (q + 1) * d + 0) by {
            assert((q + 1) * d == q * d + d) by (nonlinear_arith);
        }
        lemma_fundamental_div_mod_converse_div(a, d, q + 1, 0);
        lemma_fundamental_div_mod_converse_mod(a, d, q + 1, 0);
    }
}

proof fn lemma_dby_closed(y: int)
    requires
        0 <= y,
    ensures
        days_before_year(y) == dby_closed(y),
    decreases y,
{
    if y == 0 {
    } else if y == 1 {
        reveal_with_fuel(days_before_year, 2);
        assert(is_leap_year(0));
        assert(days_before_year(1) == 366);
    } else {
        let x = y - 1;
        lemma_dby_closed(x);
        assert(days_before_year(y) == dby_closed(x) + days_in_year(x));
        lemma_div_step(x, 4);
        lemma_div_step(x, 100);
        lemma_div_step(x, 400);
        if x % 400 == 0 {
            // divisibility by 400 gives divisibility by 100 and by 4
            vstd::arithmetic::div_mod::lemma_mod_mod(x, 100, 4);
            vstd::arithmetic::div_mod::lemma_mod_mod(x, 4, 100);
            assert(x % 100 == 0 && x % 4 == 0);
            assert(is_leap_year(x));
        } else if x % 100 == 0 {
            vstd::arithmetic::div_mod::lemma_mod_mod(x, 4, 25);
            assert(x % 4 == 0);
            assert(!is_leap_year(x));
        } else if x % 4 == 0 {
            assert(is_leap_year(x));
        } else {
            // a year not divisible by 4 is divisible by neither 100 nor 400
            if x % 100 == 0 {
                vstd::arithmetic::div_mod::lemma_mod_mod(x, 4, 25);
            }
            if x % 400 == 0 {
                vstd::arithmetic::div_mod::lemma_mod_mod(x, 4, 100);
            }
            assert(!is_leap_year(x));
        }
    }
}

pub proof fn lemma_total_days()
    ensures
        days_before_year(10000) == TOTAL_DAYS as int,
{
    lemma_dby_closed(10000);
}

/// Where the year scan lands: at the unique year whose days enclose `n`.
pub proof fn lemma_split_year_bounds(y0: int, n: int)
    requires
        0 <= n,
        0 <= y0,
    ensures
        ({
            let (yy, r) = split_year(y0, n);
            &&& yy >= y0
            &&& 0 <= r < days_in_year(yy)
            &&& n == r + days_before_year(yy) - days_before_year(y0)
        }),
    decreases n,
{
    if n >= days_in_year(y0) {
        lemma_split_year_bounds(y0 + 1, n - days_in_year(y0));
        assert(days_before_year(y0 + 1) == days_before_year(y0) + days_in_year(y0));
    }
}

/// Where the month scan lands: at the unique month whose days enclose `n`,
/// or at December for a day offset beyond the year's length.
pub proof fn lemma_split_month_bounds(y: int, m0: int, n: int)
    requires
        0 <= n,
        1 <= m0 <= 12,
    ensures
        ({
            let (mm, r) = split_month(y, m0, n);
            &&& m0 <= mm <= 12
            &&& 0 <= r
            &&& n == r + days_before_month(y, mm) - days_before_month(y, m0)
            &&& mm < 12 ==> r < days_in_month(y, mm)
        }),
    decreases 12 - m0,
{
    if !(m0 >= 12 || n < days_in_month(y, m0)) {
        lemma_split_month_bounds(y, m0 + 1, n - days_in_month(y, m0));
        assert(days_before_month(y, m0 + 1) == days_before_month(y, m0) + days_in_month(y, m0));
    }
}

/// Day numbers in range decompose into a valid date, and the decomposition
/// inverts `day_number`.
pub proof fn lemma_date_of_day_valid(n: int)
    requires
        0 <= n < TOTAL_DAYS as int,
    ensures
        valid_ymd(year_of_day(n), month_of_day(n), dom_of_day(n)),
        day_number(year_of_day(n), month_of_day(n), dom_of_day(n)) == n,
        days_before_year(year_of_day(n)) <= n < days_before_year(year_of_day(n) + 1),
        doy_of_day(n) == n - days_before_year(year_of_day(n)),
{
    lemma_split_year_bounds(0, n);
    let yy = year_of_day(n);
    let doy = doy_of_day(n);
    if yy > 9999 {
        lemma_dby_bounds(10000, yy);
        lemma_total_days();
        assert(false);
    }
    lemma_split_month_bounds(yy, 1, doy);
    let mm = month_of_day(n);
    let r = split_month(yy, 1, doy).1;
    if mm == 12 && r >= days_in_month(yy, 12) {
        lemma_months_fill_year(yy);
        assert(doy >= days_in_year(yy));
        assert(false);
    }
}

/// `day_number` is injective on valid dates (the year and month scans land
/// back on the very date the number came from).
pub proof fn lemma_day_number_inverse(y: int, m: int, d: int)
    requires
        valid_ymd(y, m, d),
    ensures
        0 <= day_number(y, m, d) < TOTAL_DAYS as int,
        year_of_day(day_number(y, m, d)) == y,
        month_of_day(day_number(y, m, d)) == m,
        dom_of_day(day_number(y, m, d)) == d,
{
    let n = day_number(y, m, d);
    lemma_day_number_in_year(y, m, d);
    lemma_dby_bounds(0, y);
    lemma_dby_bounds(y + 1, 10000);
    lemma_total_days();
    lemma_date_of_day_valid(n);
    let yy = year_of_day(n);
    // the two enclosing years must be the same year
    if yy < y {
        lemma_dby_bounds(yy + 1, y);
        assert(false);
    }
    if yy > y {
        lemma_dby_bounds(y + 1, yy);
        assert(false);
    }
    let doy = doy_of_day(n);
    assert(doy == days_before_month(y, m) + (d - 1));
    lemma_split_month_bounds(y, 1, doy);
    let mm = month_of_day(n);
    // the two enclosing months must be the same month
    if mm < m {
        lemma_dbm_monotonic(y, mm + 1, m);
        assert(false);
    }
    if mm > m {
        lemma_dbm_monotonic(y, m + 1, mm);
        assert(days_before_month(y, m + 1) == days_before_month(y, m) + days_in_month(y, m));
        assert(false);
    }
}

/// Converts a day number back to its civil date.
pub fn date_of_day(n: i64) -> (r: (i64, i64, i64))
    requires
        0 <= n < TOTAL_DAYS as int,
    ensures
        r.0 == year_of_day(n as int),
        r.1 == month_of_day(n as int),
        r.2 == dom_of_day(n as int),
        valid_ymd(r.0 as int, r.1 as int, r.2 as int),
        day_number(r.0 as int, r.1 as int, r.2 as int) == n,
{
    proof {
        lemma_date_of_day_valid(n as int);
    }
    let mut y: i64 = 0;
    let mut rem: i64 = n;
    while rem >= year_len(y)
        invariant
            0 <= rem,
            split_year(0, n as int) == split_year(y as int, rem as int),
            rem <= n < TOTAL_DAYS as int,
            0 <= y <= 9999,
            rem as int == n - (days_before_year(y as int) - days_before_year(0)),
        decreases rem,
    {
        proof {
            if y as int + 1 > 9999 {
                lemma_dby_bounds(0, y as int + 1);
                lemma_total_days();
                lemma_dby_bounds(y as int + 1, 10000);
                assert(false);
            }
        }
        rem = rem - year_len(y);
        y = y + 1;
    }
    let mut m: i64 = 1;
    while m < 12 && rem >= month_len(y, m)
        invariant
            0 <= rem,
            1 <= m <= 12,
            split_month(y as int, 1, doy_of_day(n as int)) == split_month(
                y as int,
                m as int,
                rem as int,
            ),
            y == year_of_day(n as int),
            rem <= doy_of_day(n as int) < 366,
        decreases 12 - m,
    {
        rem = rem - month_len(y, m);
        m = m + 1;
    }
    (y, m, rem + 1)
}

/// Day of week with Monday as 0, as the day-number residue anchored so that
/// 0001-01-01 (day 366) is a Monday.
pub open spec fn weekday_mon0(n: int) -> int {
    (n + 5) % 7
}

/// Day of week with Sunday as 0.
pub open spec fn weekday_sun0(n: int) -> int {
    (n + 6) % 7
}

pub fn weekday_mon0_exec(n: i64) -> (r: i64)
    requires
        0 <= n < TOTAL_DAYS as int,
    ensures
        r == weekday_mon0(n as int),
        0 <= r <= 6,
{
    (n + 5) % 7
}

pub fn weekday_sun0_exec(n: i64) -> (r: i64)
    requires
        0 <= n < TOTAL_DAYS as int,
    ensures
        r == weekday_sun0(n as int),
        0 <= r <= 6,
{
    (n + 6) % 7
}

} // verus!
