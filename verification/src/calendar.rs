//! Proleptic Gregorian calendar arithmetic and the compact UTC timestamp
//! (`YYYYMMDDTHHMMSSZ`) used to sign requests.
use vstd::prelude::*;
use crate::hexcode::{hex_digit, spec_hex_digit};
use crate::text::push_char;

verus! {

/// Whether `y` is a leap year of the Gregorian calendar.
pub open spec fn is_leap_year(y: int) -> bool {
    y % 4 == 0 && (y % 100 != 0 || y % 400 == 0)
}

/// The number of days of month `m` (1 = January) of year `y`.
pub open spec fn days_in_month(y: int, m: int) -> int {
    if m == 2 {
        if is_leap_year(y) { 29 } else { 28 }
    } else if m == 4 || m == 6 || m == 9 || m == 11 {
        30
    } else {
        31
    }
}

/// Whether `y-m-d` names a day of the calendar.
pub open spec fn is_valid_date(y: int, m: int, d: int) -> bool {
    1 <= m <= 12 && 1 <= d <= days_in_month(y, m)
}

/// The number of days of year `y` that lie before the first day of month `m`.
pub open spec fn days_before_month(y: int, m: int) -> int
    decreases m,
{
    if m <= 1 { 0 } else { days_before_month(y, m - 1) + days_in_month(y, m - 1) }
}

/// The number of leap years from year 1 up to, not including, year `y`
/// (counted with sign below year 1, so that consecutive values differ by
/// whether the year between them is a leap year).
pub open spec fn leap_years_before(y: int) -> int {
    (y - 1) / 4 - (y - 1) / 100 + (y - 1) / 400
}

/// The number of days from 1970-01-01 to `y-m-d` (negative before it).
pub open spec fn days_from_epoch(y: int, m: int, d: int) -> int {
    365 * (y - 1970) + (leap_years_before(y) - leap_years_before(1970)) + days_before_month(y, m) + (d - 1)
}

/// Consecutive counts of leap years differ by whether the year is a leap year.
pub proof fn lemma_leap_years_step(y: int)
    ensures leap_years_before(y + 1) == leap_years_before(y) + (if is_leap_year(y) { 1int } else { 0int }),
{
}

/// Adding a multiple of the divisor shifts the quotient and keeps the remainder.
proof fn lemma_div_shift(x: int, n: int, d: int)
    requires d > 0,
    ensures (x + n * d) / d == x / d + n, (x + n * d) % d == x % d,
{
    vstd::arithmetic::div_mod::lemma_fundamental_div_mod(x, d);
    assert(x + n * d == (x / d + n) * d + x % d) by (nonlinear_arith)
        requires x == d * (x / d) + x % d;
    vstd::arithmetic::div_mod::lemma_fundamental_div_mod_converse(x + n * d, d, x / d + n, x % d);
}

/// Four hundred years hold 97 leap years, and leap years repeat every 400 years.
proof fn lemma_era_shift(e: int, k: int)
    ensures leap_years_before(400 * e + k) == 97 * e + leap_years_before(k),
        is_leap_year(400 * e + k) == is_leap_year(k),
{
    lemma_div_shift(k - 1, 100 * e, 4);
    lemma_div_shift(k - 1, 4 * e, 100);
    lemma_div_shift(k - 1, e, 400);
    lemma_div_shift(k, 100 * e, 4);
    lemma_div_shift(k, 4 * e, 100);
    lemma_div_shift(k, e, 400);
}

/// The first days of the months of a year, counted from January and from March.
proof fn lemma_month_table(y: int)
    ensures
        days_before_month(y, 3) == 59 + (if is_leap_year(y) { 1int } else { 0int }),
        days_before_month(y, 4) == days_before_month(y, 3) + 31,
        days_before_month(y, 5) == days_before_month(y, 3) + 61,
        days_before_month(y, 6) == days_before_month(y, 3) + 92,
        days_before_month(y, 7) == days_before_month(y, 3) + 122,
        days_before_month(y, 8) == days_before_month(y, 3) + 153,
        days_before_month(y, 9) == days_before_month(y, 3) + 184,
        days_before_month(y, 10) == days_before_month(y, 3) + 214,
        days_before_month(y, 11) == days_before_month(y, 3) + 245,
        days_before_month(y, 12) == days_before_month(y, 3) + 275,
        days_before_month(y, 1) == 0,
        days_before_month(y, 2) == 31,
{
    reveal_with_fuel(days_before_month, 13);
}

/// In a 400-year era that starts on a March 1, the year of day `doe` is the
/// one that the era formula gives: its first day lies at or before `doe`,
/// the first day of the next year after it.
proof fn lemma_year_of_era(doe: int)
    requires 0 <= doe <= 146096,
    ensures ({
        let yoe = (doe - doe / 1460 + doe / 36524 - doe / 146096) / 365;
        &&& 0 <= yoe <= 399
        &&& 365 * yoe + yoe / 4 - yoe / 100 <= doe
        &&& doe < 365 * (yoe + 1) + (yoe + 1) / 4 - (yoe + 1) / 100 + (yoe + 1) / 400
    }),
{
}

/// In the year that starts on March 1 of `y`, the month formula finds the
/// month and day of day `doy`.
proof fn lemma_month_of_year(doy: int, y: int)
    requires
        0 <= doy < 365 + (if is_leap_year(y + 1) { 1int } else { 0int }),
    ensures ({
        let mp = (5 * doy + 2) / 153;
        let d = doy - (153 * mp + 2) / 5 + 1;
        let m = if mp < 10 { mp + 3 } else { mp - 9 };
        let yy = if m <= 2 { y + 1 } else { y };
        &&& 0 <= mp <= 11
        &&& is_valid_date(yy, m, d)
        &&& days_from_epoch(yy, m, d) == days_from_epoch(y, 3, 1) + doy
    }),
{
    let mp = (5 * doy + 2) / 153;
    assert(0 <= mp <= 11);
    lemma_month_table(y);
    lemma_month_table(y + 1);
    lemma_leap_years_step(y);
    assert(153 * mp <= 5 * doy + 2 < 153 * mp + 153);
    if mp == 0 { assert((153 * mp + 2) / 5 == 0); }
    else if mp == 1 { assert((153 * mp + 2) / 5 == 31); }
    else if mp == 2 { assert((153 * mp + 2) / 5 == 61); }
    else if mp == 3 { assert((153 * mp + 2) / 5 == 92); }
    else if mp == 4 { assert((153 * mp + 2) / 5 == 122); }
    else if mp == 5 { assert((153 * mp + 2) / 5 == 153); }
    else if mp == 6 { assert((153 * mp + 2) / 5 == 184); }
    else if mp == 7 { assert((153 * mp + 2) / 5 == 214); }
    else if mp == 8 { assert((153 * mp + 2) / 5 == 245); }
    else if mp == 9 { assert((153 * mp + 2) / 5 == 275); }
    else if mp == 10 { assert((153 * mp + 2) / 5 == 306); }
    else { assert((153 * mp + 2) / 5 == 337); }
}

/// Where March 1 of year `yoe` of an era lies, counted from 1970-01-01.
proof fn lemma_march_first(era: int, yoe: int)
    requires 0 <= yoe <= 399,
    ensures
        days_from_epoch(400 * era + yoe, 3, 1)
            == 146097 * era + (365 * yoe + yoe / 4 - yoe / 100) - 719468,
        is_leap_year(400 * era + yoe + 1) == is_leap_year(yoe + 1),
{
    lemma_era_shift(era, yoe);
    lemma_era_shift(era, yoe + 1);
    lemma_leap_years_step(yoe);
    lemma_month_table(400 * era + yoe);
    assert(leap_years_before(1970) == 477);
    assert(leap_years_before(yoe + 1) == yoe / 4 - yoe / 100 + yoe / 400);
    assert(yoe / 400 == 0);
}

/// The calendar date (year, month, day) that lies `days` days after
/// 1970-01-01.
pub fn epoch_days_to_date(days: i32) -> (r: (i32, i32, i32))
    requires
        days <= i32::MAX - 719468,
    ensures
        is_valid_date(r.0 as int, r.1 as int, r.2 as int),
        days_from_epoch(r.0 as int, r.1 as int, r.2 as int) == days,
{
    let z = days + 719468;
    let era = (if z >= 0 { z } else { z - 146096 }) / 146097;
    assert(era == z / 146097);
    let doe = (z - era * 146097) as u32;
    proof { lemma_year_of_era(doe as int); }
    let yoe = (doe - doe / 1460 + doe / 36524 - doe / 146096) / 365;
    let y = yoe as i32 + era * 400;
    let doy = doe - (365 * yoe + yoe / 4 - yoe / 100);
    proof {
        lemma_march_first(era as int, yoe as int);
        assert(yoe + 1 <= 399 ==> (yoe + 1) / 400 == 0);
        lemma_month_of_year(doy as int, y as int);
    }
    let mp = (5 * doy + 2) / 153;
    let d = doy - (153 * mp + 2) / 5 + 1;
    let m = if mp < 10 { mp + 3 } else { mp - 9 };
    let y = if m <= 2 { y + 1 } else { y };
    (y, m as i32, d as i32)
}

/// Later years are preceded by at least as many leap years.
proof fn lemma_leap_years_monotone(a: int, b: int)
    requires
        a <= b,
    ensures
        leap_years_before(a) <= leap_years_before(b),
    decreases b - a,
{
    if a < b {
        lemma_leap_years_step(b - 1);
        lemma_leap_years_monotone(a, b - 1);
    }
}

/// The day of the year of a date lies within the year.
proof fn lemma_day_of_year_bounds(y: int, m: int, d: int)
    requires
        is_valid_date(y, m, d),
    ensures
        0 <= days_before_month(y, m) + d - 1 < 365 + (if is_leap_year(y) { 1int } else { 0int }),
{
    lemma_month_table(y);
}

/// Within a year, distinct dates have distinct days of the year.
proof fn lemma_day_of_year_injective(y: int, m1: int, d1: int, m2: int, d2: int)
    requires
        is_valid_date(y, m1, d1),
        is_valid_date(y, m2, d2),
        days_before_month(y, m1) + d1 == days_before_month(y, m2) + d2,
    ensures
        m1 == m2,
        d1 == d2,
{
    lemma_month_table(y);
}

/// Distinct calendar dates lie a distinct number of days from 1970-01-01.
pub proof fn lemma_days_from_epoch_injective(y1: int, m1: int, d1: int, y2: int, m2: int, d2: int)
    requires
        is_valid_date(y1, m1, d1),
        is_valid_date(y2, m2, d2),
        days_from_epoch(y1, m1, d1) == days_from_epoch(y2, m2, d2),
    ensures
        y1 == y2,
        m1 == m2,
        d1 == d2,
{
    lemma_day_of_year_bounds(y1, m1, d1);
    lemma_day_of_year_bounds(y2, m2, d2);
    if y1 < y2 {
        lemma_leap_years_step(y1);
        lemma_leap_years_monotone(y1 + 1, y2);
    } else if y2 < y1 {
        lemma_leap_years_step(y2);
        lemma_leap_years_monotone(y2 + 1, y1);
    } else {
        lemma_day_of_year_injective(y1, m1, d1, m2, d2);
    }
}


/// The two characters that `push_pad2` appends for `n`: the digits of its
/// tens and of its units.
pub open spec fn pad2(n: int) -> Seq<char> {
    seq![spec_hex_digit(n / 10), spec_hex_digit(n % 10)]
}

/// The four characters that `push_pad4` appends for `n`: the digit of its
/// thousands (taken modulo sixteen), hundreds, tens and units.
pub open spec fn pad4(n: int) -> Seq<char> {
    seq![
        spec_hex_digit((n / 1000) % 16),
        spec_hex_digit(n / 100 % 10),
        spec_hex_digit(n / 10 % 10),
        spec_hex_digit(n % 10),
    ]
}

/// Appends `n` as two decimal digits.
pub fn push_pad2(s: &mut String, n: i32)
    requires
        0 <= n < 160,
    ensures
        final(s)@ == old(s)@ + pad2(n as int),
{
    push_char(s, hex_digit((n / 10) as u8));
    push_char(s, hex_digit((n % 10) as u8));
}

/// Appends `n` as four decimal digits. Below zero only multiples of 1000
/// are accepted: the digits of any other negative value are negative.
#[verifier::spinoff_prover]
pub fn push_pad4(s: &mut String, n: i32)
    requires
        0 <= n || n % 1000 == 0,
    ensures
        final(s)@ == old(s)@ + pad4(n as int),
{
    let q = n / 1000;
    assert(q == n as int / 1000);
    let hi = (q % 16 + 16) % 16;
    push_char(s, hex_digit(hi as u8));
    push_char(s, hex_digit((n / 100 % 10) as u8));
    push_char(s, hex_digit((n / 10 % 10) as u8));
    push_char(s, hex_digit((n % 10) as u8));
}

/// The calendar date that lies `days` days after 1970-01-01.
pub open spec fn date_of_day(days: int) -> (int, int, int) {
    choose|y: int, m: int, d: int| is_valid_date(y, m, d) && days_from_epoch(y, m, d) == days
}

/// The compact UTC timestamp `YYYYMMDDTHHMMSSZ` of an instant given in
/// nanoseconds since the Unix epoch.
pub open spec fn timestamp_chars(nanos: int) -> Seq<char> {
    let secs = nanos / 1_000_000_000;
    let t = secs % 86400;
    let date = date_of_day(secs / 86400);
    pad4(date.0) + pad2(date.1) + pad2(date.2) + seq!['T'] + pad2(t / 3600) + pad2(t % 3600 / 60)
        + pad2(t % 60) + seq!['Z']
}

/// Formats an instant in nanoseconds since the Unix epoch as the compact
/// UTC timestamp `YYYYMMDDTHHMMSSZ`.
pub fn utc_nanos_to_timestamp(nanos: u64) -> (s: String)
    ensures
        s@ == timestamp_chars(nanos as int),
{
    let secs = nanos / 1_000_000_000;
    let days = (secs / 86400) as i32;
    let time_secs = (secs % 86400) as i32;
    let h = time_secs / 3600;
    let m = (time_secs % 3600) / 60;
    let sec = time_secs % 60;

    let (y, mo, d) = epoch_days_to_date(days);
    proof {
        let c = date_of_day(days as int);
        assert(is_valid_date(y as int, mo as int, d as int) && days_from_epoch(y as int, mo as int, d as int) == days);
        lemma_days_from_epoch_injective(c.0, c.1, c.2, y as int, mo as int, d as int);
        lemma_year_range(days as int, y as int, mo as int, d as int);
    }
    let mut out = String::new();
    push_pad4(&mut out, y);
    push_pad2(&mut out, mo);
    push_pad2(&mut out, d);
    push_char(&mut out, 'T');
    push_pad2(&mut out, h);
    push_pad2(&mut out, m);
    push_pad2(&mut out, sec);
    push_char(&mut out, 'Z');
    assert(out@ == timestamp_chars(nanos as int));
    out
}

/// Days from the epoch onwards fall in year 1970 or later.
proof fn lemma_year_range(days: int, y: int, m: int, d: int)
    requires
        0 <= days,
        is_valid_date(y, m, d),
        days_from_epoch(y, m, d) == days,
    ensures
        1970 <= y,
{
    lemma_day_of_year_bounds(y, m, d);
    if y < 1970 {
        lemma_leap_years_step(y);
        lemma_leap_years_monotone(y + 1, 1970);
    }
}


/// The date that `days_from_epoch` counts is the one that `date_of_day`
/// gives back: counting days and naming the day are inverse.
pub proof fn lemma_date_of_day_round_trip(y: int, m: int, d: int)
    requires
        is_valid_date(y, m, d),
    ensures
        date_of_day(days_from_epoch(y, m, d)) == (y, m, d),
{
    let days = days_from_epoch(y, m, d);
    let c = date_of_day(days);
    assert(is_valid_date(y, m, d) && days_from_epoch(y, m, d) == days);
    lemma_days_from_epoch_injective(c.0, c.1, c.2, y, m, d);
}

/// A timestamp has sixteen characters, with `T` between the date and the
/// time and `Z` at the end.
pub proof fn lemma_timestamp_shape(nanos: int)
    ensures
        timestamp_chars(nanos).len() == 16,
        timestamp_chars(nanos)[8] == 'T',
        timestamp_chars(nanos)[15] == 'Z',
{
}

/// Every day from the start of era 0 (0000-03-01) on has a calendar date.
proof fn lemma_date_exists(days: int)
    requires
        -719468 <= days,
    ensures
        exists|y: int, m: int, d: int| is_valid_date(y, m, d) && days_from_epoch(y, m, d) == days,
{
    let z = days + 719468;
    let era = z / 146097;
    let doe = z - era * 146097;
    lemma_year_of_era(doe);
    let yoe = (doe - doe / 1460 + doe / 36524 - doe / 146096) / 365;
    let y = yoe + era * 400;
    let doy = doe - (365 * yoe + yoe / 4 - yoe / 100);
    lemma_march_first(era, yoe);
    assert(yoe + 1 <= 399 ==> (yoe + 1) / 400 == 0);
    lemma_month_of_year(doy, y);
    let mp = (5 * doy + 2) / 153;
    let d = doy - (153 * mp + 2) / 5 + 1;
    let m = if mp < 10 { mp + 3 } else { mp - 9 };
    let yy = if m <= 2 { y + 1 } else { y };
    assert(is_valid_date(yy, m, d) && days_from_epoch(yy, m, d) == days);
}

/// `date_of_day` names a date of the calendar, the one that lies `days` days
/// after 1970-01-01.
proof fn lemma_date_of_day_valid(days: int)
    requires
        -719468 <= days,
    ensures
        is_valid_date(date_of_day(days).0, date_of_day(days).1, date_of_day(days).2),
        days_from_epoch(date_of_day(days).0, date_of_day(days).1, date_of_day(days).2) == days,
{
    lemma_date_exists(days);
}

/// Whether date `a` comes before date `b` (by year, then month, then day).
pub open spec fn date_before(a: (int, int, int), b: (int, int, int)) -> bool {
    a.0 < b.0 || (a.0 == b.0 && (a.1 < b.1 || (a.1 == b.1 && a.2 < b.2)))
}

/// A date that lies fewer days after 1970-01-01 comes first.
proof fn lemma_date_order(y1: int, m1: int, d1: int, y2: int, m2: int, d2: int)
    requires
        is_valid_date(y1, m1, d1),
        is_valid_date(y2, m2, d2),
        days_from_epoch(y1, m1, d1) < days_from_epoch(y2, m2, d2),
    ensures
        date_before((y1, m1, d1), (y2, m2, d2)),
{
    lemma_day_of_year_bounds(y1, m1, d1);
    lemma_day_of_year_bounds(y2, m2, d2);
    if y2 < y1 {
        lemma_leap_years_step(y2);
        lemma_leap_years_monotone(y2 + 1, y1);
    } else if y1 == y2 {
        lemma_month_table(y1);
    }
}

/// The days up to the end of the range of `u64` nanoseconds fall in years
/// 1970 to 2554.
proof fn lemma_year_bound(days: int, y: int, m: int, d: int)
    requires
        0 <= days <= 213503,
        is_valid_date(y, m, d),
        days_from_epoch(y, m, d) == days,
    ensures
        1970 <= y <= 2554,
{
    lemma_year_range(days, y, m, d);
    lemma_day_of_year_bounds(y, m, d);
    lemma_leap_years_monotone(1970, y);
}

/// Whether text `a` comes before text `b` in character order: at the first
/// place where they differ, `a` has the smaller character.
pub open spec fn lex_before(a: Seq<char>, b: Seq<char>) -> bool {
    exists|i: int|
        0 <= i < a.len() && i < b.len() && #[trigger] a.take(i) == b.take(i) && (a[i] as int) < (b[i] as int)
}

/// Texts of one length compare by their first part, and where that is the
/// same, by what follows.
proof fn lemma_lex_concat(a1: Seq<char>, a2: Seq<char>, b1: Seq<char>, b2: Seq<char>)
    requires
        a1.len() == b1.len(),
        lex_before(a1, b1) || (a1 == b1 && lex_before(a2, b2)),
    ensures
        lex_before(a1 + a2, b1 + b2),
{
    let a = a1 + a2;
    let b = b1 + b2;
    if lex_before(a1, b1) {
        let i = choose|i: int|
            0 <= i < a1.len() && i < b1.len() && #[trigger] a1.take(i) == b1.take(i) && (a1[i] as int) < (b1[i] as int);
        assert(a.take(i) =~= a1.take(i));
        assert(b.take(i) =~= b1.take(i));
        assert(a[i] == a1[i] && b[i] == b1[i]);
    } else {
        let j = choose|j: int|
            0 <= j < a2.len() && j < b2.len() && #[trigger] a2.take(j) == b2.take(j) && (a2[j] as int) < (b2[j] as int);
        let i = a1.len() + j;
        assert(a.take(i) =~= a1 + a2.take(j));
        assert(b.take(i) =~= b1 + b2.take(j));
        assert(a[i] == a2[j] && b[i] == b2[j]);
    }
}

/// The digit characters are in the order of their values.
proof fn lemma_digit_order(a: int, b: int)
    requires
        0 <= a < b < 10,
    ensures
        (spec_hex_digit(a) as int) < (spec_hex_digit(b) as int),
{
}

/// Two-digit numbers written with `pad2` compare as the numbers do.
proof fn lemma_pad2_order(a: int, b: int)
    requires
        0 <= a < b < 100,
    ensures
        lex_before(pad2(a), pad2(b)),
{
    let pa = pad2(a);
    let pb = pad2(b);
    if a / 10 < b / 10 {
        lemma_digit_order(a / 10, b / 10);
        assert(pa.take(0) =~= pb.take(0));
    } else {
        lemma_digit_order(a % 10, b % 10);
        assert(pa.take(1) =~= pb.take(1));
    }
}

/// A number below ten thousand is the sum of its four decimal digits.
proof fn lemma_four_digits(a: int)
    requires
        0 <= a < 10000,
    ensures
        a == 1000 * (a / 1000) + 100 * (a / 100 % 10) + 10 * (a / 10 % 10) + a % 10,
        0 <= a / 1000 < 10,
        0 <= a / 100 % 10 < 10,
        0 <= a / 10 % 10 < 10,
        0 <= a % 10 < 10,
        (a / 1000) % 16 == a / 1000,
{
    assert(a / 100 == 10 * (a / 1000) + a / 100 % 10);
    assert(a / 10 == 10 * (a / 100) + a / 10 % 10);
    assert(a == 10 * (a / 10) + a % 10);
}

/// Four-digit numbers written with `pad4` compare as the numbers do.
proof fn lemma_pad4_order(a: int, b: int)
    requires
        0 <= a < b < 10000,
    ensures
        lex_before(pad4(a), pad4(b)),
{
    let pa = pad4(a);
    let pb = pad4(b);
    lemma_four_digits(a);
    lemma_four_digits(b);
    let (a3, a2, a1, a0) = (a / 1000, a / 100 % 10, a / 10 % 10, a % 10);
    let (b3, b2, b1, b0) = (b / 1000, b / 100 % 10, b / 10 % 10, b % 10);
    if a3 != b3 {
        assert(a3 < b3);
        lemma_digit_order(a3, b3);
        assert(pa.take(0) =~= pb.take(0));
    } else if a2 != b2 {
        assert(a2 < b2);
        lemma_digit_order(a2, b2);
        assert(pa.take(1) =~= pb.take(1));
    } else if a1 != b1 {
        assert(a1 < b1);
        lemma_digit_order(a1, b1);
        assert(pa.take(2) =~= pb.take(2));
    } else {
        lemma_digit_order(a0, b0);
        assert(pa.take(3) =~= pb.take(3));
    }
}

/// Three-part texts whose parts have matching lengths compare part by part.
proof fn lemma_lex_three(
    p1: Seq<char>,
    q1: Seq<char>,
    r1: Seq<char>,
    p2: Seq<char>,
    q2: Seq<char>,
    r2: Seq<char>,
)
    requires
        p1.len() == p2.len(),
        q1.len() == q2.len(),
        lex_before(p1, p2) || (p1 == p2 && (lex_before(q1, q2) || (q1 == q2 && lex_before(r1, r2)))),
    ensures
        lex_before(p1 + q1 + r1, p2 + q2 + r2),
{
    if lex_before(p1, p2) || (p1 == p2 && lex_before(q1, q2)) {
        lemma_lex_concat(p1, q1, p2, q2);
    }
    lemma_lex_concat(p1 + q1, r1, p2 + q2, r2);
}

/// The date written as `YYYYMMDD`.
pub open spec fn date_chars(date: (int, int, int)) -> Seq<char> {
    pad4(date.0) + pad2(date.1) + pad2(date.2)
}

/// The time of day `t` (in seconds) written as `HHMMSS`.
pub open spec fn time_chars(t: int) -> Seq<char> {
    pad2(t / 3600) + pad2(t % 3600 / 60) + pad2(t % 60)
}

/// A later date of years 0 to 9999 is written later.
proof fn lemma_date_chars_order(a: (int, int, int), b: (int, int, int))
    requires
        0 <= a.0 <= 9999,
        0 <= b.0 <= 9999,
        is_valid_date(a.0, a.1, a.2),
        is_valid_date(b.0, b.1, b.2),
        date_before(a, b),
    ensures
        lex_before(date_chars(a), date_chars(b)),
{
    if a.0 < b.0 {
        lemma_pad4_order(a.0, b.0);
    } else if a.1 < b.1 {
        lemma_pad2_order(a.1, b.1);
    } else {
        lemma_pad2_order(a.2, b.2);
    }
    lemma_lex_three(pad4(a.0), pad2(a.1), pad2(a.2), pad4(b.0), pad2(b.1), pad2(b.2));
}

/// A later time of the day is written later.
proof fn lemma_time_chars_order(t1: int, t2: int)
    requires
        0 <= t1 < t2 < 86400,
    ensures
        lex_before(time_chars(t1), time_chars(t2)),
{
    let (h1, m1, s1) = (t1 / 3600, t1 % 3600 / 60, t1 % 60);
    let (h2, m2, s2) = (t2 / 3600, t2 % 3600 / 60, t2 % 60);
    assert(t1 == 3600 * h1 + 60 * m1 + s1 && 0 <= h1 < 24 && 0 <= m1 < 60 && 0 <= s1 < 60);
    assert(t2 == 3600 * h2 + 60 * m2 + s2 && 0 <= h2 < 24 && 0 <= m2 < 60 && 0 <= s2 < 60);
    if h1 != h2 {
        lemma_pad2_order(h1, h2);
    } else if m1 != m2 {
        lemma_pad2_order(m1, m2);
    } else {
        lemma_pad2_order(s1, s2);
    }
    lemma_lex_three(pad2(h1), pad2(m1), pad2(s1), pad2(h2), pad2(m2), pad2(s2));
}

/// Timestamps follow time: two instants in the same second give the same
/// timestamp, and an instant in a later second gives a timestamp that comes
/// later in character order (for every instant that `u64` nanoseconds hold).
pub proof fn lemma_timestamp_monotone(n1: int, n2: int)
    requires
        0 <= n1 <= n2 <= u64::MAX,
    ensures
        n1 / 1_000_000_000 == n2 / 1_000_000_000 ==> timestamp_chars(n1) == timestamp_chars(n2),
        n1 / 1_000_000_000 < n2 / 1_000_000_000 ==> lex_before(timestamp_chars(n1), timestamp_chars(n2)),
{
    let s1 = n1 / 1_000_000_000;
    let s2 = n2 / 1_000_000_000;
    if s1 < s2 {
        let (days1, days2) = (s1 / 86400, s2 / 86400);
        let (t1, t2) = (s1 % 86400, s2 % 86400);
        assert(0 <= days1 <= days2 <= 213503);
        let (a, b) = (date_of_day(days1), date_of_day(days2));
        lemma_date_of_day_valid(days1);
        lemma_date_of_day_valid(days2);
        lemma_year_bound(days1, a.0, a.1, a.2);
        lemma_year_bound(days2, b.0, b.1, b.2);
        let (ts1, ts2) = (timestamp_chars(n1), timestamp_chars(n2));
        assert(ts1 =~= (date_chars(a) + seq!['T']) + time_chars(t1) + seq!['Z']);
        assert(ts2 =~= (date_chars(b) + seq!['T']) + time_chars(t2) + seq!['Z']);
        if days1 < days2 {
            lemma_date_order(a.0, a.1, a.2, b.0, b.1, b.2);
            lemma_date_chars_order(a, b);
            lemma_lex_three(date_chars(a), seq!['T'], time_chars(t1), date_chars(b), seq!['T'], time_chars(t2));
        } else {
            assert(t1 < t2);
            lemma_time_chars_order(t1, t2);
            lemma_lex_three(date_chars(a), seq!['T'], time_chars(t1), date_chars(b), seq!['T'], time_chars(t2));
        }
        lemma_lex_concat(
            date_chars(a) + seq!['T'] + time_chars(t1),
            seq!['Z'],
            date_chars(b) + seq!['T'] + time_chars(t2),
            seq!['Z'],
        );
    }
}

}