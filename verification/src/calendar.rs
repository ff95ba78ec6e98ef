//! The proleptic Gregorian calendar: civil dates counted in days from
//! 1970-01-01, and the conversion of a day number back to its date.

use vstd::prelude::*;
use vstd::arithmetic::div_mod::{lemma_fundamental_div_mod, lemma_fundamental_div_mod_converse, lemma_mod_bound};

verus! {

pub open spec fn is_leap_year(y: int) -> bool {
    y % 4 == 0 && (y % 100 != 0 || y % 400 == 0)
}

pub open spec fn days_in_month(y: int, m: int) -> int {
    if m == 2 {
        if is_leap_year(y) { 29 } else { 28 }
    } else if m == 4 || m == 6 || m == 9 || m == 11 {
        30
    } else {
        31
    }
}

pub open spec fn is_valid_date(y: int, m: int, d: int) -> bool {
    1 <= m <= 12 && 1 <= d <= days_in_month(y, m)
}

/// Days of year `y` in the months before month `m`.
pub open spec fn days_before_month(y: int, m: int) -> int
    decreases m,
{
    if m <= 1 {
        0
    } else {
        days_before_month(y, m - 1) + days_in_month(y, m - 1)
    }
}

/// Leap years among 1..=y (the same count, continued below year 1).
pub open spec fn leap_years_through(y: int) -> int {
    y / 4 - y / 100 + y / 400
}

/// Days from 1970-01-01 to the first day of year `y` (negative before).
pub open spec fn days_before_year(y: int) -> int {
    365 * (y - 1970) + leap_years_through(y - 1) - leap_years_through(1969)
}

/// Days from 1970-01-01 to the date `y-m-d`.
pub open spec fn days_from_civil(y: int, m: int, d: int) -> int {
    days_before_year(y) + days_before_month(y, m) + d - 1
}

/// The date of day `z`, counted from 1970-01-01.
pub open spec fn civil_date(z: int) -> (int, int, int) {
    choose|t: (int, int, int)| is_valid_date(t.0, t.1, t.2) && days_from_civil(t.0, t.1, t.2) == z
}

/// Days from 0000-03-01 to `y`-03-01.
spec fn march_days(y: int) -> int {
    365 * y + y / 4 - y / 100 + y / 400
}

/// Start of the `k`-th year (from March) of a 400-year era, in days.
spec fn era_year_start(k: int) -> int {
    365 * k + k / 4 - k / 100
}

/// Days before the `k`-th month counted from March.
spec fn march_month_start(k: int) -> int {
    (153 * k + 2) / 5
}

#[verifier::spinoff_prover]
#[verifier::rlimit(50)]
proof fn lemma_year_of_era(doe: int)
    requires
        0 <= doe <= 146096,
    ensures
        ({
            let yoe = (doe - doe / 1460 + doe / 36524 - doe / 146096) / 365;
            &&& 0 <= yoe <= 399
            &&& era_year_start(yoe) <= doe
            &&& doe < era_year_start(yoe) + 365 + (if (yoe + 1) % 4 == 0 && ((yoe + 1) % 100 != 0
                || yoe == 399) {
                1int
            } else {
                0
            })
        }),
{
}

proof fn lemma_month_of_year(doy: int)
    requires
        0 <= doy <= 365,
    ensures
        ({
            let mp = (5 * doy + 2) / 153;
            &&& 0 <= mp <= 11
            &&& march_month_start(mp) <= doy
            &&& mp <= 10 ==> doy < march_month_start(mp + 1)
        }),
{
}

proof fn lemma_days_before_month_values(y: int)
    ensures
        days_before_month(y, 1) == 0,
        days_before_month(y, 2) == 31,
        forall|m: int|
            3 <= m <= 12 ==> #[trigger] days_before_month(y, m) == 59 + (if is_leap_year(y) {
                1int
            } else {
                0
            }) + march_month_start(m - 3),
{
    let l: int = if is_leap_year(y) { 1 } else { 0 };
    assert(days_before_month(y, 1) == 0);
    assert(days_before_month(y, 2) == 31);
    assert(days_before_month(y, 3) == 59 + l);
    assert(days_before_month(y, 4) == 90 + l);
    assert(days_before_month(y, 5) == 120 + l);
    assert(days_before_month(y, 6) == 151 + l);
    assert(days_before_month(y, 7) == 181 + l);
    assert(days_before_month(y, 8) == 212 + l);
    assert(days_before_month(y, 9) == 243 + l);
    assert(days_before_month(y, 10) == 273 + l);
    assert(days_before_month(y, 11) == 304 + l);
    assert(days_before_month(y, 12) == 334 + l);
}

proof fn lemma_div_offset(q: int, x: int, d: int)
    requires
        d > 0,
    ensures
        (q * d + x) / d == q + x / d,
        (q * d + x) % d == x % d,
{
    lemma_fundamental_div_mod(x, d);
    lemma_mod_bound(x, d);
    let a = x / d;
    let b = x % d;
    assert((q + a) * d + b == q * d + x) by (nonlinear_arith)
        requires
            x == d * a + b,
    ;
    lemma_fundamental_div_mod_converse(q * d + x, d, q + a, b);
}

proof fn lemma_div_step(y: int, d: int)
    requires
        d > 0,
    ensures
        y / d - (y - 1) / d == (if y % d == 0 { 1int } else { 0 }),
{
    lemma_fundamental_div_mod(y, d);
    lemma_mod_bound(y, d);
    let a = y / d;
    let b = y % d;
    if b == 0 {
        assert((a - 1) * d + (d - 1) == y - 1) by (nonlinear_arith)
            requires
                y == d * a + b,
                b == 0,
        ;
        lemma_fundamental_div_mod_converse(y - 1, d, a - 1, d - 1);
    } else {
        assert(a * d + (b - 1) == y - 1) by (nonlinear_arith)
            requires
                y == d * a + b,
        ;
        lemma_fundamental_div_mod_converse(y - 1, d, a, b - 1);
    }
}

proof fn lemma_march_days_step(y: int)
    ensures
        march_days(y) == march_days(y - 1) + 365 + (if is_leap_year(y) { 1int } else { 0 }),
{
    lemma_div_step(y, 4);
    lemma_div_step(y, 100);
    lemma_div_step(y, 400);
    lemma_fundamental_div_mod(y, 400);
    lemma_fundamental_div_mod(y, 100);
    if y % 400 == 0 {
        lemma_div_offset(4 * (y / 400), 0, 100);
        lemma_div_offset(100 * (y / 400), 0, 4);
    }
    if y % 100 == 0 {
        lemma_div_offset(25 * (y / 100), 0, 4);
    }
}

proof fn lemma_march_days_of_era(era: int, yoe: int)
    requires
        0 <= yoe <= 399,
    ensures
        march_days(400 * era + yoe) == 146097 * era + era_year_start(yoe),
{
    lemma_div_offset(100 * era, yoe, 4);
    lemma_div_offset(4 * era, yoe, 100);
    lemma_div_offset(era, yoe, 400);
    assert(yoe / 400 == 0);
}

/// Leap years of an era repeat every 400 years.
proof fn lemma_leap_of_next(era: int, yoe: int)
    requires
        0 <= yoe <= 399,
    ensures
        is_leap_year(400 * era + yoe + 1) <==> ((yoe + 1) % 4 == 0 && ((yoe + 1) % 100 != 0 || yoe
            == 399)),
{
    lemma_div_offset(100 * era, yoe + 1, 4);
    lemma_div_offset(4 * era, yoe + 1, 100);
    lemma_div_offset(era, yoe + 1, 400);
    assert((yoe + 1) % 400 == 0 <==> yoe == 399);
}

/// The date of day `z`, counted from 1970-01-01 (Howard Hinnant's
/// `civil_from_days`).
pub fn civil_from_days(z: i64) -> (r: (i64, u32, u32))
    requires
        z <= i64::MAX - 719_468,
    ensures
        is_valid_date(r.0 as int, r.1 as int, r.2 as int),
        days_from_civil(r.0 as int, r.1 as int, r.2 as int) == z,
        (r.0 as int, r.1 as int, r.2 as int) == civil_date(z as int),
{
    let zz: i64 = z + 719_468;
    let era: i64 = if zz >= 0 { zz / 146_097 } else { -((146_096 - zz) / 146_097) };
    assert(era == zz / 146_097) by {
        if zz < 0 {
            assert(-((146_096 - zz) / 146_097) == zz / 146_097) by (nonlinear_arith)
                requires
                    zz < 0,
            ;
        }
    }
    assert(0 <= zz - era * 146_097 <= 146_096) by (nonlinear_arith)
        requires
            era == zz / 146_097,
    ;
    let doe: u64 = (zz - era * 146_097) as u64;
    proof {
        lemma_year_of_era(doe as int);
    }
    let yoe: u64 = (doe - doe / 1_460 + doe / 36_524 - doe / 146_096) / 365;
    let year: i64 = yoe as i64 + era * 400;
    let doy: u64 = doe - (365 * yoe + yoe / 4 - yoe / 100);
    proof {
        lemma_month_of_year(doy as int);
    }
    let mp: u64 = (5 * doy + 2) / 153;
    let day: u32 = (doy - (153 * mp + 2) / 5 + 1) as u32;
    let month: u32 = if mp < 10 { (mp + 3) as u32 } else { (mp - 9) as u32 };
    let civil_year: i64 = if month <= 2 { year + 1 } else { year };
    proof {
        lemma_civil_date_parts(era as int, yoe as int, doy as int, zz as int);
        lemma_civil_date_is(z as int, civil_year as int, month as int, day as int);
    }
    (civil_year, month, day)
}

/// The date assembled from an era, a year of the era and a day of that
/// year (both counted from March) is valid and is the day they count.
proof fn lemma_civil_date_parts(era: int, yoe: int, doy: int, zz: int)
    requires
        0 <= yoe <= 399,
        0 <= doy,
        era_year_start(yoe) + doy < era_year_start(yoe) + 365 + (if (yoe + 1) % 4 == 0 && ((yoe
            + 1) % 100 != 0 || yoe == 399) {
            1int
        } else {
            0
        }),
        zz == 146097 * era + era_year_start(yoe) + doy,
    ensures
        ({
            let mp = (5 * doy + 2) / 153;
            let d = doy - march_month_start(mp) + 1;
            let m = if mp < 10 { mp + 3 } else { mp - 9 };
            let y = 400 * era + yoe + (if m <= 2 { 1int } else { 0 });
            is_valid_date(y, m, d) && days_from_civil(y, m, d) == zz - 719_468
        }),
{
    lemma_month_of_year(doy);
    let mp = (5 * doy + 2) / 153;
    let d = doy - march_month_start(mp) + 1;
    let m = if mp < 10 { mp + 3 } else { mp - 9 };
    let y0 = 400 * era + yoe;
    let y = y0 + (if m <= 2 { 1int } else { 0 });
    lemma_march_days_of_era(era, yoe);
    lemma_leap_of_next(era, yoe);
    lemma_days_before_month_values(y);
    assert(zz == march_days(y0) + doy);
    if mp < 10 {
        lemma_march_days_step(y0);
        assert(days_before_year(y0) + 719_468 == march_days(y0 - 1) + 306);
        assert(days_before_month(y0, m) == 59 + (if is_leap_year(y0) { 1int } else { 0 })
            + march_month_start(mp));
    } else {
        assert(days_before_year(y0 + 1) + 719_468 == march_days(y0) + 306);
    }
}

proof fn lemma_days_before_year_step(y: int)
    ensures
        days_before_year(y + 1) == days_before_year(y) + 365 + (if is_leap_year(y) { 1int } else { 0 }),
{
    lemma_march_days_step(y);
}

proof fn lemma_days_before_year_monotone(a: int, b: int)
    requires
        a <= b,
    ensures
        days_before_year(a) <= days_before_year(b),
    decreases b - a,
{
    if a < b {
        lemma_days_before_year_step(b - 1);
        lemma_days_before_year_monotone(a, b - 1);
    }
}

proof fn lemma_days_before_month_monotone(y: int, a: int, b: int)
    requires
        1 <= a < b,
    ensures
        days_before_month(y, a) + days_in_month(y, a) <= days_before_month(y, b),
    decreases b - a,
{
    if a + 1 < b {
        lemma_days_before_month_monotone(y, a, b - 1);
        assert(days_before_month(y, b) == days_before_month(y, b - 1) + days_in_month(y, b - 1));
    }
}

/// A valid date lies in its year: at or after the year's first day and
/// before the next year's.
proof fn lemma_date_within_year(y: int, m: int, d: int)
    requires
        is_valid_date(y, m, d),
    ensures
        days_before_year(y) <= days_from_civil(y, m, d) < days_before_year(y + 1),
{
    lemma_days_before_year_step(y);
    lemma_days_before_month_values(y);
    if m < 12 {
        lemma_days_before_month_monotone(y, m, 12);
    }
    assert(days_before_month(y, m) >= 0) by {
        if m >= 2 {
            lemma_days_before_month_monotone(y, 1, m);
        }
    }
}

/// Different valid dates are different days.
pub proof fn law_civil_date_unique(y1: int, m1: int, d1: int, y2: int, m2: int, d2: int)
    requires
        is_valid_date(y1, m1, d1),
        is_valid_date(y2, m2, d2),
        days_from_civil(y1, m1, d1) == days_from_civil(y2, m2, d2),
    ensures
        y1 == y2 && m1 == m2 && d1 == d2,
{
    lemma_date_within_year(y1, m1, d1);
    lemma_date_within_year(y2, m2, d2);
    if y1 < y2 {
        lemma_days_before_year_monotone(y1 + 1, y2);
    } else if y2 < y1 {
        lemma_days_before_year_monotone(y2 + 1, y1);
    }
    assert(y1 == y2);
    if m1 < m2 {
        lemma_days_before_month_monotone(y1, m1, m2);
    } else if m2 < m1 {
        lemma_days_before_month_monotone(y1, m2, m1);
    }
}

/// `civil_from_days` gives `civil_date(z)`, the one date of day `z`.
pub proof fn lemma_civil_date_is(z: int, y: int, m: int, d: int)
    requires
        is_valid_date(y, m, d),
        days_from_civil(y, m, d) == z,
    ensures
        civil_date(z) == (y, m, d),
{
    let w = (y, m, d);
    assert(is_valid_date(w.0, w.1, w.2) && days_from_civil(w.0, w.1, w.2) == z);
    let t = civil_date(z);
    assert(is_valid_date(t.0, t.1, t.2) && days_from_civil(t.0, t.1, t.2) == z);
    law_civil_date_unique(t.0, t.1, t.2, y, m, d);
}

/// Days on or after 1970-01-01 fall in 1970 or later.
pub proof fn lemma_nonnegative_day_year(z: int)
    requires
        z >= 0,
    ensures
        civil_date(z).0 >= 1970,
        is_valid_date(civil_date(z).0, civil_date(z).1, civil_date(z).2),
        days_from_civil(civil_date(z).0, civil_date(z).1, civil_date(z).2) == z,
{
    let t = civil_date(z);
    let y = t.0;
    lemma_civil_date_exists(z);
    lemma_date_within_year(t.0, t.1, t.2);
    if y < 1970 {
        lemma_days_before_year_monotone(y + 1, 1970);
    }
}

proof fn lemma_civil_date_exists(z: int)
    requires
        z >= 0,
    ensures
        is_valid_date(civil_date(z).0, civil_date(z).1, civil_date(z).2),
        days_from_civil(civil_date(z).0, civil_date(z).1, civil_date(z).2) == z,
{
    let zz = z + 719_468;
    let era = zz / 146_097;
    let doe = zz - era * 146_097;
    assert(0 <= doe <= 146_096) by (nonlinear_arith)
        requires
            era == zz / 146_097,
            doe == zz - era * 146_097,
    ;
    lemma_year_of_era(doe);
    let yoe = (doe - doe / 1460 + doe / 36524 - doe / 146096) / 365;
    let doy = doe - era_year_start(yoe);
    lemma_civil_date_parts(era, yoe, doy, zz);
    let mp = (5 * doy + 2) / 153;
    let d = doy - march_month_start(mp) + 1;
    let m = if mp < 10 { mp + 3 } else { mp - 9 };
    let y = 400 * era + yoe + (if m <= 2 { 1int } else { 0 });
    lemma_civil_date_is(z, y, m, d);
}


/// Whether date `a` comes before date `b`.
pub open spec fn date_before(a: (int, int, int), b: (int, int, int)) -> bool {
    a.0 < b.0 || (a.0 == b.0 && (a.1 < b.1 || (a.1 == b.1 && a.2 < b.2)))
}

/// An earlier valid date is an earlier day.
proof fn lemma_days_from_civil_increasing(a: (int, int, int), b: (int, int, int))
    requires
        is_valid_date(a.0, a.1, a.2),
        is_valid_date(b.0, b.1, b.2),
        date_before(a, b),
    ensures
        days_from_civil(a.0, a.1, a.2) < days_from_civil(b.0, b.1, b.2),
{
    lemma_date_within_year(a.0, a.1, a.2);
    lemma_date_within_year(b.0, b.1, b.2);
    if a.0 < b.0 {
        lemma_days_before_year_monotone(a.0 + 1, b.0);
    } else if a.1 < b.1 {
        lemma_days_before_month_monotone(a.0, a.1, b.1);
    }
}

/// Later days have later dates.
pub proof fn lemma_civil_date_increasing(z1: int, z2: int)
    requires
        0 <= z1 < z2,
    ensures
        date_before(civil_date(z1), civil_date(z2)),
{
    lemma_nonnegative_day_year(z1);
    lemma_nonnegative_day_year(z2);
    let a = civil_date(z1);
    let b = civil_date(z2);
    if !date_before(a, b) {
        if a == b {
        } else {
            lemma_days_from_civil_increasing(b, a);
        }
    }
}

} // verus!
