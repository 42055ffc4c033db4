use logsday::week::{
    day_num, day_num_tz, days_since, days_since_at, ensure_tz_valid, is_logsday_tz, is_logsday_tz_at, now,
    time_left_today_tz, time_left_today_tz_at, time_until_next_logsday_tz, time_until_next_logsday_tz_at,
    today_tz, weekday_tz, DAY_SECS,
};

#[test]
fn epoch_weekdays() {
    // The epoch is a Thursday in a seven-day week and a Monday in an eight-day week.
    assert_eq!(weekday_tz(0, 7, 0), 3);
    assert_eq!(weekday_tz(0, 8, 0), 0);
}

#[test]
fn day_numbers_round_toward_zero() {
    assert_eq!(day_num(3 * DAY_SECS + 5), 3);
    assert_eq!(day_num(-10), 0);
    assert_eq!(day_num(-DAY_SECS - 1), -1);
    assert_eq!(day_num_tz(100_000, 3600), 1);
    assert_eq!(day_num_tz(80_000, 10_000), 1);
}

#[test]
fn today_start() {
    assert_eq!(today_tz(100_000, 0), 86_400);
    assert_eq!(today_tz(100_000, 3600), 82_800);
}

#[test]
fn logsday_at_given_time() {
    assert!(is_logsday_tz_at(0, 7, 3, 0));
    assert!(!is_logsday_tz_at(0, 7, 4, 0));
    assert!(is_logsday_tz_at(DAY_SECS, 7, 4, 0));
    assert!(is_logsday_tz_at(0, 8, 0, 0));
}

#[test]
fn time_left_today() {
    assert_eq!(time_left_today_tz_at(100_000, 0), 72_800);
    assert_eq!(time_left_today_tz_at(86_400, 0), 86_400);
}

#[test]
fn time_until_next_logsday() {
    assert_eq!(time_until_next_logsday_tz_at(0, 7, 5, 0), 2 * DAY_SECS);
    assert_eq!(time_until_next_logsday_tz_at(3600, 7, 3, 0), -3600);
    assert_eq!(time_until_next_logsday_tz_at(0, 7, 1, 0), 5 * DAY_SECS);
    assert_eq!(time_until_next_logsday_tz_at(0, 8, 7, 0), 7 * DAY_SECS);
}

#[test]
fn days_since_given_time() {
    assert_eq!(days_since_at(10 * DAY_SECS, 3 * DAY_SECS + 50), 7);
    assert_eq!(days_since_at(10 * DAY_SECS + 5, 10 * DAY_SECS), 0);
}

#[test]
fn tz_validity() {
    assert_eq!(ensure_tz_valid(50_000), 0);
    assert_eq!(ensure_tz_valid(-43_200), -43_200);
    assert_eq!(ensure_tz_valid(43_201), 0);
    assert_eq!(ensure_tz_valid(3600), 3600);
    for tz in [-100_000, -43_200, 0, 12, 43_200, 99_999] {
        let v = ensure_tz_valid(tz);
        assert_eq!(ensure_tz_valid(v), v);
        assert!((-43_200..=43_200).contains(&v));
    }
}

#[test]
fn law_weekday_in_range_repeats_and_advances() {
    for w in [7, 8] {
        for t in [0, 1, 86_399, 86_400, 1_700_000_000, 1_234_567_890] {
            for tz in [-43_200, 0, 3600, 43_200] {
                if t + tz < 0 {
                    continue;
                }
                let d = weekday_tz(t, w, tz);
                assert!((0..w).contains(&d));
                assert_eq!(weekday_tz(t + w * DAY_SECS, w, tz), d);
                assert_eq!(weekday_tz(t + DAY_SECS, w, tz), (d + 1) % w);
            }
        }
    }
}

#[test]
fn law_logsday_iff_no_time_until_next() {
    for w in [7, 8] {
        for d in 0..w {
            for t in [0, 5000, 1_700_000_000] {
                let until = time_until_next_logsday_tz_at(t, w, d, 0);
                assert_eq!(is_logsday_tz_at(t, w, d, 0), until <= 0);
                assert!(until > -DAY_SECS && until <= w * DAY_SECS);
                let left = time_left_today_tz_at(t, 0);
                assert!(left > 0 && left <= DAY_SECS);
            }
        }
    }
}

#[test]
fn clock_readings() {
    let t = now().unwrap();
    assert!(t > 1_600_000_000);
    assert!(is_logsday_tz(7, 3, 0).is_some());
    assert!(days_since(0).unwrap() > 18_000);
    assert_eq!(days_since(i64::MAX), None);
    let left = time_left_today_tz(0).unwrap();
    assert!(left > 0 && left <= DAY_SECS);
    assert!(time_until_next_logsday_tz(8, 2, 3600).is_some());
}

#[test]
fn law_time_until_next_logsday_computable_near_the_end_of_time() {
    let t = i64::MAX - 100;
    let r = time_until_next_logsday_tz_at(t, 8, 3, 0);
    assert!(r > -DAY_SECS && r <= 8 * DAY_SECS);
    assert_eq!(r <= 0, is_logsday_tz_at(t, 8, 3, 0));
}
