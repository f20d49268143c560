//! Proleptic Gregorian calendar arithmetic on day numbers.
//!
//! Day 0 is 1970-01-01. Years are counted from March ("March years") inside
//! the computation so that the leap day is the last day of a year.

use vstd::prelude::*;

verus! {

/// Gregorian date without a timezone.
#[derive(Debug, Clone, Copy, PartialEq, Eq, Structural)]
pub struct CivilDate {
    pub year: i32,
    pub month: u8,
    pub day: u8,
}

/// Leap year of the Gregorian calendar.
pub open spec fn is_leap(y: int) -> bool {
    (y % 4 == 0 && y % 100 != 0) || y % 400 == 0
}

/// Length of month `m` (1–12) of year `y`.
pub open spec fn days_in_month(y: int, m: int) -> int {
    if m == 2 {
        if is_leap(y) {
            29
        } else {
            28
        }
    } else if m == 4 || m == 6 || m == 9 || m == 11 {
        30
    } else {
        31
    }
}

/// A real calendar day.
pub open spec fn valid_date(d: CivilDate) -> bool {
    1 <= d.month <= 12 && 1 <= d.day && d.day as int <= days_in_month(d.year as int, d.month as int)
}

/// Days from 0000-03-01 to the first of March of March year `k`.
pub open spec fn days_before_march_year(k: int) -> int {
    365 * k + k / 4 - k / 100 + k / 400
}

/// Days from the first of March to the first day of month `mp` counted from
/// March (0 = March, …, 10 = January, 11 = February).
pub open spec fn month_offset(mp: int) -> int {
    (153 * mp + 2) / 5
}

/// March year of a calendar year and month.
pub open spec fn march_year(y: int, m: int) -> int {
    if m <= 2 {
        y - 1
    } else {
        y
    }
}

/// Month counted from March of a calendar month (months past 12 run on).
pub open spec fn march_month(m: int) -> int {
    if m > 2 {
        m - 3
    } else {
        m + 9
    }
}

/// Day number (days since 1970-01-01) of year `y`, month `m`, day `d`. Days
/// past the end of a month run on into the next ones.
pub open spec fn day_number(y: int, m: int, d: int) -> int {
    days_before_march_year(march_year(y, m)) + month_offset(march_month(m)) + d - 1 - 719468
}

/// Day number of a date.
pub open spec fn unix_days_spec(d: CivilDate) -> int {
    day_number(d.year as int, d.month as int, d.day as int)
}

/// ISO weekday (1 = Monday … 7 = Sunday) of a day number.
pub open spec fn weekday_spec(z: int) -> int {
    ((z % 7) + 3) % 7 + 1
}

/// Dates whose day arithmetic stays inside 32-bit day numbers.
pub open spec fn in_range(d: CivilDate) -> bool {
    -5_000_000 <= d.year <= 5_000_000
}

/// Day numbers that map back to 32-bit dates.
pub open spec fn day_in_range(z: int) -> bool {
    i32::MIN <= z && z + 719468 <= i32::MAX
}

proof fn lemma_dbmy_shift(era: int, yoe: int)
    requires
        0 <= yoe < 400,
    ensures
        days_before_march_year(era * 400 + yoe) == era * 146097 + 365 * yoe + yoe / 4 - yoe
            / 100,
{
    assert((era * 400 + yoe) / 4 == era * 100 + yoe / 4);
    assert((era * 400 + yoe) / 100 == era * 4 + yoe / 100);
    assert((era * 400 + yoe) / 400 == era);
}

proof fn lemma_dbmy_step(k: int)
    ensures
        days_before_march_year(k + 1) - days_before_march_year(k) == 365 + (if is_leap(k + 1) {
            1int
        } else {
            0int
        }),
{
    assert((k + 1) / 4 - k / 4 == (if (k + 1) % 4 == 0 {
        1int
    } else {
        0int
    }));
    assert((k + 1) / 100 - k / 100 == (if (k + 1) % 100 == 0 {
        1int
    } else {
        0int
    }));
    assert((k + 1) / 400 - k / 400 == (if (k + 1) % 400 == 0 {
        1int
    } else {
        0int
    }));
    if (k + 1) % 100 == 0 {
        assert((k + 1) % 4 == 0);
    }
    if (k + 1) % 400 == 0 {
        assert((k + 1) % 100 == 0);
    }
}

proof fn lemma_dbmy_lower(k: int)
    requires
        k >= 0,
    ensures
        days_before_march_year(k) >= 365 * k,
{
    assert(k / 4 >= k / 100);
}

/// Day number of a date (days since 1970-01-01).
pub fn unix_days(date: CivilDate) -> (z: i32)
    requires
        in_range(date),
    ensures
        z as int == unix_days_spec(date),
        -1_900_000_000 <= z <= 1_900_000_000,
{
    days_from_civil(date.year, date.month, date.day)
}

/// Days since 1970-01-01 of year `y`, month `m`, day `d`.
pub fn days_from_civil(y: i32, m: u8, d: u8) -> (z: i32)
    requires
        -5_000_000 <= y <= 5_000_000,
    ensures
        z as int == day_number(y as int, m as int, d as int),
        -1_900_000_000 <= z <= 1_900_000_000,
{
    let yy: i64 = (y as i64) - (if m <= 2 {
        1i64
    } else {
        0i64
    });
    let shifted: i64 = yy + 5_000_400;
    let era: i64 = shifted / 400 - 12_501;
    let yoe: i64 = yy - era * 400;
    assert(0 <= yoe < 400);
    let mp: i64 = if m > 2 {
        m as i64 - 3
    } else {
        m as i64 + 9
    };
    let doy: i64 = (153 * mp + 2) / 5 + (d as i64) - 1;
    let doe: i64 = yoe * 365 + yoe / 4 - yoe / 100 + doy;
    proof {
        lemma_dbmy_shift(era as int, yoe as int);
    }
    let z: i64 = era * 146097 + doe - 719468;
    z as i32
}

/// ISO weekday (1 = Monday … 7 = Sunday) of a day number.
pub fn iso_weekday(unix_days: i32) -> (w: u8)
    ensures
        w as int == weekday_spec(unix_days as int),
        1 <= w <= 7,
{
    let r: i64 = (unix_days as i64) % 7;
    let r1: i64 = if r < 0 {
        r + 7
    } else {
        r
    };
    let v: i64 = (r1 + 3) % 7 + 1;
    v as u8
}

/// The date with day number `z`.
pub fn civil_from_unix_days(z: i32) -> (d: CivilDate)
    requires
        day_in_range(z as int),
    ensures
        valid_date(d),
        unix_days_spec(d) == z as int,
{
    civil_from_days(z as i64 + 719468)
}

/// Splits a day count from 0000-03-01 into 400-year eras.
fn era_split(n: i64) -> (r: (i64, i64))
    requires
        i32::MIN + 719468 <= n <= i32::MAX,
    ensures
        n == r.0 * 146097 + r.1,
        0 <= r.1 < 146097,
        -14_700 <= r.0 <= 14_700,
{
    let shifted: i64 = n + 2_921_940_000;
    let era: i64 = shifted / 146097 - 20_000;
    let doe: i64 = n - era * 146097;
    (era, doe)
}

/// Splits a day of an era into its March year and the day within that year.
fn year_split(doe: i64) -> (r: (i64, i64))
    requires
        0 <= doe < 146097,
    ensures
        0 <= r.0 < 400,
        doe == days_before_march_year(r.0 as int) + r.1,
        0 <= r.1 < days_before_march_year(r.0 + 1) - days_before_march_year(r.0 as int),
{
    let mut yoe: i64 = doe / 365;
    proof {
        lemma_dbmy_lower(yoe as int + 1);
    }
    while yoe * 365 + yoe / 4 - yoe / 100 + yoe / 400 > doe
        invariant
            0 <= yoe <= 400,
            0 <= doe < 146097,
            doe < days_before_march_year(yoe + 1),
        decreases yoe,
    {
        yoe = yoe - 1;
    }
    assert(days_before_march_year(400) == 146097);
    let doy: i64 = doe - (yoe * 365 + yoe / 4 - yoe / 100 + yoe / 400);
    (yoe, doy)
}

/// Splits a day of a March year into its month (from March) and day.
fn month_split(doy: i64) -> (r: (i64, i64))
    requires
        0 <= doy < 366,
    ensures
        0 <= r.0 < 12,
        1 <= r.1,
        doy == month_offset(r.0 as int) + r.1 - 1,
        r.1 <= month_offset(r.0 + 1) - month_offset(r.0 as int),
{
    let mut mp: i64 = 0;
    while mp < 11 && (153 * (mp + 1) + 2) / 5 <= doy
        invariant
            0 <= mp <= 11,
            0 <= doy < 366,
            month_offset(mp as int) <= doy,
        decreases 11 - mp,
    {
        mp = mp + 1;
    }
    assert(month_offset(12) == 367);
    let dd: i64 = doy - (153 * mp + 2) / 5 + 1;
    (mp, dd)
}

/// The date `n` days after 0000-03-01.
#[verifier::rlimit(40)]
#[verifier::spinoff_prover]
pub fn civil_from_days(n: i64) -> (d: CivilDate)
    requires
        i32::MIN + 719468 <= n <= i32::MAX,
    ensures
        valid_date(d),
        unix_days_spec(d) == n - 719468,
{
    let (era, doe) = era_split(n);
    let (yoe, doy) = year_split(doe);
    proof {
        lemma_dbmy_step(yoe as int);
        lemma_dbmy_step(era * 400 + yoe);
        lemma_dbmy_shift(era as int, yoe as int);
        lemma_dbmy_shift(0, yoe as int);
    }
    assert(0 <= doy < 366);
    let (mp, dd) = month_split(doy);
    let m: i64 = if mp < 10 {
        mp + 3
    } else {
        mp - 9
    };
    let y: i64 = era * 400 + yoe + (if m <= 2 {
        1i64
    } else {
        0i64
    });
    let d = CivilDate { year: y as i32, month: m as u8, day: dd as u8 };
    proof {
        assert(march_year(y as int, m as int) == era * 400 + yoe);
        assert(march_month(m as int) == mp);
        assert(days_before_march_year(era * 400 + yoe) == era * 146097
            + days_before_march_year(yoe as int));
        if mp == 11 {
            assert(is_leap(era * 400 + yoe + 1) == is_leap(y as int));
            assert(dd <= days_in_month(y as int, m as int));
        } else {
            assert(dd <= days_in_month(y as int, m as int));
        }
    }
    d
}

/// Day number of the first of January of year `y`.
spec fn jan_first(y: int) -> int {
    days_before_march_year(y - 1) + 306 - 719468
}

/// A real date lies between the first of January and the last of
/// December of its year.
proof fn lemma_within_year(x: CivilDate)
    requires
        valid_date(x),
    ensures
        jan_first(x.year as int) <= unix_days_spec(x) < jan_first(x.year + 1),
{
    let y = x.year as int;
    lemma_dbmy_step(y - 1);
    lemma_position_unique(x);
    if x.month >= 3 {
        lemma_offset_mono(march_month(x.month as int) + 1, 10);
    }
}

/// Two real dates at most six days apart are in the same year or in
/// consecutive years.
proof fn lemma_near_dates_years(a: CivilDate, r: CivilDate)
    requires
        valid_date(a),
        valid_date(r),
        unix_days_spec(a) - 6 <= unix_days_spec(r) <= unix_days_spec(a),
    ensures
        a.year - 1 <= r.year <= a.year,
{
    lemma_within_year(a);
    lemma_within_year(r);
    if r.year > a.year {
        lemma_dbmy_mono(a.year as int, r.year - 1);
    }
    if r.year < a.year - 1 {
        lemma_dbmy_mono(r.year as int, a.year - 2);
        lemma_dbmy_step(a.year - 2);
    }
}

/// Monday of the ISO week that contains `date`; for a real date it lies in
/// the same year or the one before.
pub fn monday_of(date: CivilDate) -> (r: CivilDate)
    requires
        in_range(date),
    ensures
        valid_date(r),
        unix_days_spec(r) == monday_number(unix_days_spec(date)),
        weekday_spec(unix_days_spec(r)) == 1,
        -1_900_000_006 <= unix_days_spec(r) <= 1_900_000_000,
        valid_date(date) ==> date.year - 1 <= r.year <= date.year,
{
    let days = unix_days(date);
    let iso = iso_weekday(days);
    let r = civil_from_unix_days(days - (iso as i32 - 1));
    proof {
        lemma_weekday_shift(days as int, iso as int - 1);
        if valid_date(date) {
            lemma_near_dates_years(date, r);
        }
    }
    r
}

proof fn lemma_weekday_shift(z: int, k: int)
    requires
        k == weekday_spec(z) - 1,
    ensures
        weekday_spec(z - k) == 1,
{
}

/// Adds (possibly negative) days.
pub fn add_days(date: CivilDate, delta: i32) -> (r: CivilDate)
    requires
        in_range(date),
        day_in_range(unix_days_spec(date) + delta),
    ensures
        valid_date(r),
        unix_days_spec(r) == unix_days_spec(date) + delta,
{
    civil_from_unix_days(unix_days(date) + delta)
}

/// Two real dates with the same day number are the same date.
pub proof fn law_day_number_injective(a: CivilDate, b: CivilDate)
    requires
        valid_date(a),
        valid_date(b),
        unix_days_spec(a) == unix_days_spec(b),
    ensures
        a == b,
{
    lemma_position_unique(a);
    lemma_position_unique(b);
    let ya = march_year(a.year as int, a.month as int);
    let yb = march_year(b.year as int, b.month as int);
    let oa = month_offset(march_month(a.month as int)) + a.day - 1;
    let ob = month_offset(march_month(b.month as int)) + b.day - 1;
    if ya < yb {
        lemma_dbmy_mono(ya + 1, yb);
    } else if yb < ya {
        lemma_dbmy_mono(yb + 1, ya);
    }
    assert(ya == yb);
    assert(oa == ob);
    lemma_offset_unique(march_month(a.month as int), a.day - 1, march_month(b.month as int), b.day
        - 1);
}

proof fn lemma_dbmy_mono(j: int, k: int)
    requires
        j <= k,
    ensures
        days_before_march_year(j) <= days_before_march_year(k),
    decreases k - j,
{
    if j < k {
        lemma_dbmy_step(j);
        lemma_dbmy_mono(j + 1, k);
    }
}

proof fn lemma_position_unique(a: CivilDate)
    requires
        valid_date(a),
    ensures
        0 <= month_offset(march_month(a.month as int)) + a.day - 1,
        month_offset(march_month(a.month as int)) + a.day - 1 < days_before_march_year(
            march_year(a.year as int, a.month as int) + 1,
        ) - days_before_march_year(march_year(a.year as int, a.month as int)),
        (a.day - 1) < month_offset(march_month(a.month as int) + 1) - month_offset(
            march_month(a.month as int),
        ),
{
    lemma_dbmy_step(march_year(a.year as int, a.month as int));
}

proof fn lemma_offset_unique(mp1: int, e1: int, mp2: int, e2: int)
    requires
        0 <= mp1 < 12,
        0 <= mp2 < 12,
        0 <= e1 < month_offset(mp1 + 1) - month_offset(mp1),
        0 <= e2 < month_offset(mp2 + 1) - month_offset(mp2),
        month_offset(mp1) + e1 == month_offset(mp2) + e2,
    ensures
        mp1 == mp2,
        e1 == e2,
{
    if mp1 < mp2 {
        lemma_offset_mono(mp1 + 1, mp2);
    } else if mp2 < mp1 {
        lemma_offset_mono(mp2 + 1, mp1);
    }
}

proof fn lemma_offset_mono(j: int, k: int)
    requires
        j <= k,
    ensures
        month_offset(j) <= month_offset(k),
    decreases k - j,
{
    if j < k {
        lemma_offset_mono(j + 1, k);
    }
}

/// Adding days twice is adding their sum; adding seven keeps the weekday.
pub proof fn law_add_days_compose(z: int, a: int, b: int)
    ensures
        (z + a) + b == z + (a + b),
        weekday_spec(z + 7) == weekday_spec(z),
{
}

/// Day number of the Monday of the week that contains day `z`.
pub open spec fn monday_number(z: int) -> int {
    z - (weekday_spec(z) - 1)
}

/// Every day of a week has the same Monday: the Monday is a Monday at most
/// six days back, its own Monday is itself, and each of the six days after
/// it has it as Monday.
pub proof fn law_week_shares_its_monday(z: int)
    ensures
        weekday_spec(monday_number(z)) == 1,
        0 <= z - monday_number(z) <= 6,
        monday_number(monday_number(z)) == monday_number(z),
        forall|k: int| 0 <= k <= 6 ==> #[trigger] monday_number(monday_number(z) + k) == monday_number(z),
{
    let m = monday_number(z);
    assert(weekday_spec(m) == 1) by {
        lemma_weekday_shift(z, weekday_spec(z) - 1);
    }
    assert forall|k: int| 0 <= k <= 6 implies #[trigger] monday_number(m + k) == m by {
        assert(weekday_spec(m + k) == 1 + k) by {
            assert(((m % 7) + 3) % 7 == 0);
            assert((((m + k) % 7) + 3) % 7 == k) by (nonlinear_arith)
                requires
                    ((m % 7) + 3) % 7 == 0,
                    0 <= k <= 6,
            ;
        }
    }
    assert(monday_number(m + 0) == m);
}

/// The Monday of a date's week is at most six days before it, and no later than it.
pub proof fn law_monday_within_week(z: int)
    ensures
        z - 6 <= z - (weekday_spec(z) - 1) <= z,
        1 <= weekday_spec(z) <= 7,
{
}

} // verus!
