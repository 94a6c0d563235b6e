//! Proleptic Gregorian calendar arithmetic: day numbers counted from
//! 1970-01-01 and their inverse, with the laws that tie them together.
use vstd::prelude::*;
use crate::text::{i64_text_padded, int_text_padded};
use vstd::arithmetic::div_mod::{lemma_fundamental_div_mod, lemma_fundamental_div_mod_converse};
verus! {
/// Gregorian leap-year rule.
pub open spec fn is_leap(y: int) -> bool { (y % 4 == 0 && y % 100 != 0) || y % 400 == 0 }
/// Leap days counted up to year `y` (floor divisions), so that the step from
/// `y - 1` to `y` is one exactly when `y` is a leap year.
pub open spec fn leap_days_through(y: int) -> int { y / 4 - y / 100 + y / 400 }
/// Days of a common year before the first of month `m`.
pub open spec fn cumulative_month_days(m: int) -> int {
    if m <= 1 { 0 } else if m == 2 { 31 } else if m == 3 { 59 } else if m == 4 { 90 }
    else if m == 5 { 120 } else if m == 6 { 151 } else if m == 7 { 181 } else if m == 8 { 212 }
    else if m == 9 { 243 } else if m == 10 { 273 } else if m == 11 { 304 } else { 334 }
}
pub open spec fn days_before_month(y: int, m: int) -> int {
    cumulative_month_days(m) + if m > 2 && is_leap(y) { 1int } else { 0int }
}
/// Number of days from 1970-01-01 to the date `y-m-d`, counting each year
/// and month by its length.
pub open spec fn epoch_day(y: int, m: int, d: int) -> int {
    365 * (y - 1970) + leap_days_through(y - 1) - 477 + days_before_month(y, m) + d - 1
}
/// The era-based day-number formula evaluated over the integers, for any month.
pub open spec fn hinnant_days(y: int, m: int, d: int) -> int {
    let yy = if m <= 2 { y - 1 } else { y };
    let era = yy / 400;
    let yoe = yy - era * 400;
    let mp = if m > 2 { m - 3 } else { m + 9 };
    let doy = (153 * mp + 2) / 5 + d - 1;
    let doe = yoe * 365 + yoe / 4 - yoe / 100 + doy;
    era * 146097 + doe - 719468
}

proof fn lemma_era(yy: int)
    ensures ({
        let era = yy / 400;
        let yoe = yy - era * 400;
        &&& 0 <= yoe < 400
        &&& era * 146097 + yoe * 365 + yoe / 4 - yoe / 100 == 365 * yy + leap_days_through(yy)
    }),
{
    let era = yy / 400;
    let yoe = yy - era * 400;
    lemma_fundamental_div_mod(yy, 400);
    assert(yy / 4 == era * 100 + yoe / 4) by {
        lemma_fundamental_div_mod_converse(yy, 4, era * 100 + yoe / 4, yoe % 4);
    }
    assert(yy / 100 == era * 4 + yoe / 100) by {
        lemma_fundamental_div_mod_converse(yy, 100, era * 4 + yoe / 100, yoe % 100);
    }
}

proof fn lemma_march_offset(m: int)
    requires 1 <= m <= 12,
    ensures
        m > 2 ==> (153 * (m - 3) + 2) / 5 == cumulative_month_days(m) - 59,
        m <= 2 ==> (153 * (m + 9) + 2) / 5 == cumulative_month_days(m) + 306,
{
    if m == 1 { assert((153 * 10 + 2) / 5 == 306); }
    else if m == 2 { assert((153 * 11 + 2) / 5 == 337); }
    else if m == 3 { assert((153 * 0 + 2) / 5 == 0); }
    else if m == 4 { assert((153 * 1 + 2) / 5 == 31); }
    else if m == 5 { assert((153 * 2 + 2) / 5 == 61); }
    else if m == 6 { assert((153 * 3 + 2) / 5 == 92); }
    else if m == 7 { assert((153 * 4 + 2) / 5 == 122); }
    else if m == 8 { assert((153 * 5 + 2) / 5 == 153); }
    else if m == 9 { assert((153 * 6 + 2) / 5 == 184); }
    else if m == 10 { assert((153 * 7 + 2) / 5 == 214); }
    else if m == 11 { assert((153 * 8 + 2) / 5 == 245); }
    else { assert((153 * 9 + 2) / 5 == 275); }
}

/// The era-based formula counts days as `epoch_day` does, for every year and
/// day, whenever the month is one of the twelve.
#[verifier::spinoff_prover]
#[verifier::rlimit(60)]
pub proof fn lemma_hinnant(y: int, m: int, d: int)
    requires 1 <= m <= 12,
    ensures hinnant_days(y, m, d) == epoch_day(y, m, d),
{
    let yy = if m <= 2 { y - 1 } else { y };
    lemma_era(yy);
    lemma_march_offset(m);
    lemma_leap_step(y);
    let era = yy / 400;
    let yoe = yy - era * 400;
    let mp = if m > 2 { m - 3 } else { m + 9 };
    assert(era * 146097 + yoe * 365 + yoe / 4 - yoe / 100 == 365 * yy + leap_days_through(yy));
    assert(hinnant_days(y, m, d) == 365 * yy + leap_days_through(yy) + (153 * mp + 2) / 5 + d - 1 - 719468);
}

proof fn lemma_leap_step(y: int)
    ensures leap_days_through(y) - leap_days_through(y - 1) == if is_leap(y) { 1int } else { 0int },
{
}

#[verifier::spinoff_prover]
#[verifier::rlimit(60)]
proof fn lemma_yoe(doe: int)
    requires 0 <= doe < 146097,
    ensures ({
        let yoe = (doe - doe / 1460 + doe / 36524 - doe / 146096) / 365;
        &&& 0 <= yoe < 400
        &&& 365 * yoe + yoe / 4 - yoe / 100 <= doe
        &&& doe < 365 * (yoe + 1) + (yoe + 1) / 4 - (yoe + 1) / 100 + (yoe + 1) / 400
    }),
{
}

/// Length of month `m` of year `y` (zero for a number that is no month).
pub open spec fn days_in_month(y: int, m: int) -> int {
    if m == 1 || m == 3 || m == 5 || m == 7 || m == 8 || m == 10 || m == 12 { 31 }
    else if m == 4 || m == 6 || m == 9 || m == 11 { 30 }
    else if m == 2 { if is_leap(y) { 29 } else { 28 } }
    else { 0 }
}
/// The inverse formula: the calendar date (year, month, day) of a day number.
pub open spec fn civil_of(days: int) -> (int, int, int) {
    let z = days + 719468;
    let era = z / 146097;
    let doe = z - era * 146097;
    let yoe = (doe - doe / 1460 + doe / 36524 - doe / 146096) / 365;
    let y = yoe + era * 400;
    let doy = doe - (365 * yoe + yoe / 4 - yoe / 100);
    let mp = (5 * doy + 2) / 153;
    let d = doy - (153 * mp + 2) / 5 + 1;
    let m = if mp < 10 { mp + 3 } else { mp - 9 };
    (if m <= 2 { y + 1 } else { y }, m, d)
}

#[verifier::spinoff_prover]
#[verifier::rlimit(60)]
proof fn lemma_month_of_doy(doy: int)
    requires 0 <= doy < 366,
    ensures ({
        let mp = (5 * doy + 2) / 153;
        let d = doy - (153 * mp + 2) / 5 + 1;
        &&& 0 <= mp < 12
        &&& 1 <= d
        &&& mp != 11 ==> d <= days_in_month(0, if mp < 10 { mp + 3 } else { mp - 9 })
        &&& mp == 11 ==> d <= 29 && (d == 29 <==> doy == 365)
    }),
{
}

/// Every day number names a valid calendar date, whose day number is the one
/// it came from.
#[verifier::spinoff_prover]
#[verifier::rlimit(60)]
pub proof fn lemma_civil(days: int)
    ensures ({
        let (y, m, d) = civil_of(days);
        &&& 1 <= m <= 12
        &&& 1 <= d <= days_in_month(y, m)
        &&& epoch_day(y, m, d) == days
    }),
{
    let z = days + 719468;
    let era = z / 146097;
    let doe = z - era * 146097;
    lemma_fundamental_div_mod(z, 146097);
    lemma_yoe(doe);
    let yoe = (doe - doe / 1460 + doe / 36524 - doe / 146096) / 365;
    let doy = doe - (365 * yoe + yoe / 4 - yoe / 100);
    lemma_month_of_doy(doy);
    let (y, m, d) = civil_of(days);
    let yy = yoe + era * 400;
    assert(yy / 400 == era) by {
        lemma_fundamental_div_mod_converse(yy, 400, era, yoe);
    }
    lemma_hinnant(y, m, d);
    lemma_march_offset(m);
    // Feb 29 exists exactly when the March-based year is long
    assert(is_leap(yy + 1) <==> (yoe + 1) % 4 == 0 && ((yoe + 1) % 100 != 0 || yoe + 1 == 400)) by {
        lemma_fundamental_div_mod_converse(yy + 1, 4, era * 100 + (yoe + 1) / 4, (yoe + 1) % 4);
        lemma_fundamental_div_mod_converse(yy + 1, 100, era * 4 + (yoe + 1) / 100, (yoe + 1) % 100);
        lemma_fundamental_div_mod_converse(yy + 1, 400, era + (yoe + 1) / 400, (yoe + 1) % 400);
    }
}

pub open spec fn year_start(k: int) -> int { 365 * k + k / 4 - k / 100 + k / 400 }

proof fn lemma_year_start_unique(a: int, b: int, doe: int)
    requires 0 <= a < 400, 0 <= b < 400,
        year_start(a) <= doe < year_start(a + 1),
        year_start(b) <= doe < year_start(b + 1),
    ensures a == b,
{
    if a < b {
        assert(year_start(a + 1) <= year_start(b));
    } else if b < a {
        assert(year_start(b + 1) <= year_start(a));
    }
}

/// A month of the year and a day within that month.
pub open spec fn is_valid_date(y: int, m: int, d: int) -> bool {
    1 <= m <= 12 && 1 <= d <= days_in_month(y, m)
}

/// The date of the day number of a valid date is that date.
#[verifier::spinoff_prover]
#[verifier::rlimit(60)]
pub proof fn lemma_civil_inverse(y: int, m: int, d: int)
    requires is_valid_date(y, m, d),
    ensures civil_of(epoch_day(y, m, d)) == (y, m, d),
{
    let n = epoch_day(y, m, d);
    lemma_hinnant(y, m, d);
    lemma_march_offset(m);
    let yy = if m <= 2 { y - 1 } else { y };
    lemma_era(yy);
    let era = yy / 400;
    let yoe = yy - era * 400;
    let mp = if m > 2 { m - 3 } else { m + 9 };
    let doy = (153 * mp + 2) / 5 + d - 1;
    let doe = yoe * 365 + yoe / 4 - yoe / 100 + doy;
    assert(is_leap(yy + 1) <==> (yoe + 1) % 4 == 0 && ((yoe + 1) % 100 != 0 || yoe + 1 == 400)) by {
        lemma_fundamental_div_mod_converse(yy + 1, 4, era * 100 + (yoe + 1) / 4, (yoe + 1) % 4);
        lemma_fundamental_div_mod_converse(yy + 1, 100, era * 4 + (yoe + 1) / 100, (yoe + 1) % 100);
        lemma_fundamental_div_mod_converse(yy + 1, 400, era + (yoe + 1) / 400, (yoe + 1) % 400);
    }
    assert(is_leap(y) <==> (m <= 2 && is_leap(yy + 1)) || (m > 2 && is_leap(yy)));
    assert(0 <= doe < 146097);
    let z = n + 719468;
    assert(z == era * 146097 + doe);
    assert(z / 146097 == era) by {
        lemma_fundamental_div_mod_converse(z, 146097, era, doe);
    }
    lemma_yoe(doe);
    let yoe2 = (doe - doe / 1460 + doe / 36524 - doe / 146096) / 365;
    assert(year_start(yoe) <= doe < year_start(yoe + 1));
    lemma_year_start_unique(yoe, yoe2, doe);
    lemma_month_of_doy(doy);
}

/// Whether `year` is a leap year.
pub fn is_leap_year(year: i32) -> (r: bool)
    ensures
        r == is_leap(year as int),
{
    let magnitude: i64 = if year < 0 { -(year as i64) } else { year as i64 };
    proof {
        lemma_divisible_either_sign(year as int, 4);
        lemma_divisible_either_sign(year as int, 100);
        lemma_divisible_either_sign(year as int, 400);
    }
    (magnitude % 4 == 0 && magnitude % 100 != 0) || magnitude % 400 == 0
}

proof fn lemma_divisible_either_sign(y: int, k: int)
    requires
        k > 0,
    ensures
        (y % k == 0) <==> ((-y) % k == 0),
{
    lemma_fundamental_div_mod(y, k);
    lemma_fundamental_div_mod(-y, k);
    if y % k == 0 {
        let q = y / k;
        assert((-q) * k == -(k * q)) by (nonlinear_arith);
        lemma_fundamental_div_mod_converse(-y, k, -q, 0);
    }
    if (-y) % k == 0 {
        let q = (-y) / k;
        assert((-q) * k == -(k * q)) by (nonlinear_arith);
        lemma_fundamental_div_mod_converse(y, k, -q, 0);
    }
}

/// Length of `month` in `year`, zero when `month` is not in 1..=12.
pub fn month_length(year: i32, month: u32) -> (r: u32)
    ensures
        r == days_in_month(year as int, month as int),
{
    if month == 1 || month == 3 || month == 5 || month == 7 || month == 8 || month == 10 || month == 12 {
        31
    } else if month == 4 || month == 6 || month == 9 || month == 11 {
        30
    } else if month == 2 {
        if is_leap_year(year) { 29 } else { 28 }
    } else {
        0
    }
}

pub open spec fn fits_i32(n: int) -> bool {
    i32::MIN <= n <= i32::MAX
}

/// Exactly the dates on which each step of the day-number formula stays
/// inside 32-bit arithmetic (a month and day that cast to `i32` unchanged).
pub open spec fn civil_in_range(year: int, month: int, day: int) -> bool {
    let yy = if month <= 2 { year - 1 } else { year };
    let era = yy / 400;
    let yoe = yy - era * 400;
    let mp = if month > 2 { month - 3 } else { month + 9 };
    let doy = (153 * mp + 2) / 5 + day - 1;
    let doe = yoe * 365 + yoe / 4 - yoe / 100 + doy;
    &&& fits_i32(yy)
    &&& (yy < 0 ==> fits_i32(yy - 399))
    &&& month <= i32::MAX && day <= i32::MAX
    &&& fits_i32(153 * mp + 2)
    &&& fits_i32((153 * mp + 2) / 5 + day)
    &&& fits_i32(doe)
    &&& fits_i32(era * 146097)
    &&& fits_i32(era * 146097 + doe)
    &&& fits_i32(era * 146097 + doe - 719468)
}

/// The day number of `year-month-day` counted from 1970-01-01, by the era-based
/// formula in 32-bit arithmetic.
#[verifier::spinoff_prover]
#[verifier::rlimit(60)]
pub fn days_from_civil(year: i32, month: u32, day: u32) -> (r: i64)
    requires
        civil_in_range(year as int, month as int, day as int),
    ensures
        r == hinnant_days(year as int, month as int, day as int),
        1 <= month <= 12 ==> r == epoch_day(year as int, month as int, day as int),
{
    let year: i32 = if month <= 2 { year - 1 } else { year };
    let era: i32 = if year >= 0 { year } else { year - 399 } / 400;
    proof {
        let yy = year as int;
        lemma_fundamental_div_mod(yy, 400);
        if yy < 0 {
            lemma_fundamental_div_mod_converse(399 - yy, 400, -(yy / 400), 399 - yy % 400);
        }
        assert(era == yy / 400);
    }
    let yoe: i32 = year - era * 400;
    let month: i32 = month as i32;
    let mp: i32 = month + if month > 2 { -3 } else { 9 };
    let doy: i32 = (153 * mp + 2) / 5 + day as i32 - 1;
    let doe: i32 = yoe * 365 + yoe / 4 - yoe / 100 + doy;
    let r: i64 = (era * 146_097 + doe - 719_468) as i64;
    proof {
        if 1 <= month <= 12 {
            lemma_hinnant(year as int + if month <= 2 { 1int } else { 0int }, month as int, day as int);
        }
    }
    r
}

/// Bounds within which the year of a day number fits a 32-bit year.
pub open spec fn day_number_in_range(days: int) -> bool {
    -500_000_000_000 <= days <= 500_000_000_000
}

/// The calendar date of a day number counted from 1970-01-01.
#[verifier::spinoff_prover]
#[verifier::rlimit(60)]
pub fn civil_from_days(days: i64) -> (r: (i32, u32, u32))
    requires
        days <= i64::MAX - 719_468,
    ensures
        r.0 == civil_of(days as int).0 as i32,
        r.1 == civil_of(days as int).1,
        r.2 == civil_of(days as int).2,
        day_number_in_range(days as int) ==> {
            &&& r.0 == civil_of(days as int).0
            &&& is_valid_date(r.0 as int, r.1 as int, r.2 as int)
            &&& epoch_day(r.0 as int, r.1 as int, r.2 as int) == days
        },
{
    let z: i64 = days + 719_468;
    let era: i64 = if z >= 0 { z } else { z - 146_096 } / 146_097;
    proof {
        let zz = z as int;
        lemma_fundamental_div_mod(zz, 146097);
        if zz < 0 {
            lemma_fundamental_div_mod_converse(146096 - zz, 146097, -(zz / 146097), 146096 - zz % 146097);
        }
        assert(era == zz / 146097);
    }
    let doe: i64 = z - era * 146_097;
    proof { lemma_yoe(doe as int); }
    let yoe: i64 = (doe - doe / 1460 + doe / 36_524 - doe / 146_096) / 365;
    let year: i64 = yoe + era * 400;
    let doy: i64 = doe - (365 * yoe + yoe / 4 - yoe / 100);
    proof { lemma_month_of_doy(doy as int); }
    let mp: i64 = (5 * doy + 2) / 153;
    let day: i64 = doy - (153 * mp + 2) / 5 + 1;
    let month: i64 = mp + if mp < 10 { 3 } else { -9 };
    let year: i64 = year + if month <= 2 { 1 } else { 0 };
    proof { lemma_civil(days as int); }
    (year as i32, month as u32, day as u32)
}


/// A date written `YYYY-MM-DD` as `{:04}-{:02}-{:02}` writes it.
pub open spec fn date_text(year: int, month: int, day: int) -> Seq<char> {
    int_text_padded(year, 4) + "-"@ + int_text_padded(month, 2) + "-"@ + int_text_padded(day, 2)
}

/// Writes a date as `{:04}-{:02}-{:02}` does.
pub fn format_date(year: i32, month: u32, day: u32) -> (r: String)
    ensures
        r@ == date_text(year as int, month as int, day as int),
{
    let mut r = i64_text_padded(year as i64, 4);
    r.append("-");
    let m = i64_text_padded(month as i64, 2);
    r.append(m.as_str());
    r.append("-");
    let d = i64_text_padded(day as i64, 2);
    r.append(d.as_str());
    r
}


/// Within the formula's range, a day number is a 32-bit integer.
pub proof fn lemma_hinnant_bound(y: int, m: int, d: int)
    requires
        civil_in_range(y, m, d),
    ensures
        fits_i32(hinnant_days(y, m, d)),
{
}

} // verus!
