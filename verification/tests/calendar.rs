use openagent_plugins::calendar::{epoch_days_to_date, push_pad2, push_pad4, utc_nanos_to_timestamp};

#[test]
fn epoch_day_zero_is_new_year_1970() {
    assert_eq!(epoch_days_to_date(0), (1970, 1, 1));
}

#[test]
fn day_before_epoch_is_new_years_eve_1969() {
    assert_eq!(epoch_days_to_date(-1), (1969, 12, 31));
}

#[test]
fn leap_days_are_counted() {
    assert_eq!(epoch_days_to_date(19782), (2024, 2, 29));
    assert_eq!(epoch_days_to_date(11016), (2000, 2, 29));
    assert_eq!(epoch_days_to_date(11017), (2000, 3, 1));
}

#[test]
fn century_without_leap_day() {
    // 1900 is not a leap year: 1900-02-28 is followed by 1900-03-01
    assert_eq!(epoch_days_to_date(-25567), (1900, 1, 1));
    assert_eq!(epoch_days_to_date(-25567 + 58), (1900, 2, 28));
    assert_eq!(epoch_days_to_date(-25567 + 59), (1900, 3, 1));
}

#[test]
fn era_boundaries() {
    assert_eq!(epoch_days_to_date(-719468), (0, 3, 1));
    assert_eq!(epoch_days_to_date(-719469), (0, 2, 29));
    assert_eq!(epoch_days_to_date(213503), (2554, 7, 21));
}

#[test]
fn pads_write_fixed_width_digits() {
    let mut s = String::new();
    push_pad4(&mut s, 987);
    push_pad2(&mut s, 7);
    push_pad2(&mut s, 59);
    assert_eq!(s, "09870759");
}

#[test]
fn pad4_takes_thousands_as_a_hex_digit() {
    let mut s = String::new();
    push_pad4(&mut s, 12345);
    assert_eq!(s, "c345");
}

#[test]
fn pad4_of_negative_thousands() {
    let mut s = String::new();
    push_pad4(&mut s, -1000);
    push_pad4(&mut s, -32000);
    assert_eq!(s, "f0000000");
}

#[test]
fn timestamp_of_epoch() {
    assert_eq!(utc_nanos_to_timestamp(0), "19700101T000000Z");
}

#[test]
fn timestamp_drops_sub_second_part() {
    assert_eq!(utc_nanos_to_timestamp(1_700_000_000_000_000_123), "20231114T221320Z");
}

#[test]
fn timestamp_on_leap_day() {
    assert_eq!(utc_nanos_to_timestamp(1_709_208_000_000_000_000), "20240229T120000Z");
    assert_eq!(utc_nanos_to_timestamp(951_782_400_000_000_000), "20000229T000000Z");
}

#[test]
fn timestamp_of_largest_instant() {
    let t = utc_nanos_to_timestamp(u64::MAX);
    assert_eq!(t, "25540721T233433Z");
    assert_eq!(t.len(), 16);
}

/// Days from 1970-01-01 to a date, counted year by year and month by month.
fn count_days(y: i64, m: i64, d: i64) -> i64 {
    let leap = |y: i64| (y % 4 == 0 && y % 100 != 0) || y % 400 == 0;
    let year_len = |y: i64| if leap(y) { 366 } else { 365 };
    let month_len = |y: i64, m: i64| match m {
        2 => if leap(y) { 29 } else { 28 },
        4 | 6 | 9 | 11 => 30,
        _ => 31,
    };
    // whole 400-year cycles first, then single years
    let cycles = (y - 1970).div_euclid(400);
    let mut days = cycles * 146097;
    let mut year = 1970 + cycles * 400;
    while year < y {
        days += year_len(year);
        year += 1;
    }
    for month in 1..m {
        days += month_len(y, month);
    }
    days + d - 1
}

#[test]
fn dates_count_back_to_their_day() {
    let mut probes: Vec<i32> = (-800_000..800_000).step_by(997).collect();
    probes.extend([i32::MIN, i32::MIN + 1, -1, 0, 59, 60, i32::MAX - 719_468]);
    for days in probes {
        let (y, m, d) = epoch_days_to_date(days);
        assert!((1..=12).contains(&m) && d >= 1, "{} -> {:?}", days, (y, m, d));
        assert_eq!(count_days(y as i64, m as i64, d as i64), days as i64, "{} -> {:?}", days, (y, m, d));
    }
}

#[test]
fn timestamps_follow_time() {
    let base: u64 = 1_704_067_199_000_000_000; // 2023-12-31T23:59:59Z
    assert_eq!(utc_nanos_to_timestamp(base), "20231231T235959Z");
    assert_eq!(utc_nanos_to_timestamp(base + 999_999_999), utc_nanos_to_timestamp(base));
    let next = utc_nanos_to_timestamp(base + 1_000_000_000);
    assert_eq!(next, "20240101T000000Z");
    assert!(utc_nanos_to_timestamp(base) < next);
    let mut previous = utc_nanos_to_timestamp(0);
    let mut n: u64 = 0;
    while let Some(m) = n.checked_add(3_333_333_333_333_333 + n / 7) {
        n = m;
        let t = utc_nanos_to_timestamp(n);
        assert!(previous <= t, "{} then {}", previous, t);
        previous = t;
    }
}
