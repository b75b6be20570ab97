use las::age::{age_of, duration_to_days, Age, Stamp, SECONDS_IN_DAY, UNAVAILABLE};

#[test]
fn no_time_is_zero_days() {
    assert_eq!(duration_to_days(0, 0), 0);
}

#[test]
fn half_a_day_rounds_up() {
    assert_eq!(duration_to_days(43_199, 999_999_999), 0);
    assert_eq!(duration_to_days(43_200, 0), 1);
    assert_eq!(duration_to_days(86_400, 0), 1);
    assert_eq!(duration_to_days(129_599, 999_999_999), 1);
    assert_eq!(duration_to_days(129_600, 0), 2);
}

#[test]
fn whole_days_come_back() {
    assert_eq!(duration_to_days(3 * SECONDS_IN_DAY, 0), 3);
    assert_eq!(duration_to_days(365 * SECONDS_IN_DAY + 17, 5), 365);
    assert_eq!(duration_to_days(10 * SECONDS_IN_DAY - 1, 0), 10);
}

#[test]
fn days_agree_with_rounded_quotient() {
    let samples: [(u64, u32); 8] = [
        (0, 1),
        (1, 0),
        (43_200, 1),
        (86_399, 0),
        (100_000, 500_000_000),
        (1_000_000, 0),
        (31_557_600, 123),
        (4_000_000_000, 999_999_999),
    ];
    for (secs, nanos) in samples {
        let seconds = secs as f64 + nanos as f64 / 1_000_000_000.0;
        let expected = (seconds / 86_400.0).round();
        assert_eq!(duration_to_days(secs, nanos) as f64, expected);
    }
}

#[test]
fn longest_span_does_not_overflow() {
    let total = u64::MAX as u128 * 1_000_000_000 + 999_999_999;
    let expected = (total + 43_200_000_000_000) / 86_400_000_000_000;
    assert_eq!(duration_to_days(u64::MAX, 999_999_999) as u128, expected);
    assert_eq!(duration_to_days(u64::MAX, u32::MAX), 213_503_982_334_601);
}

#[test]
fn nanoseconds_beyond_a_second_count() {
    // 43_199 s and 4 s more in nanoseconds pass the half day.
    assert_eq!(duration_to_days(43_199, 4_000_000_000), 1);
    assert_eq!(duration_to_days(43_195, 4_000_000_000), 0);
}

#[test]
fn unread_stamp_has_no_age() {
    assert_eq!(age_of(Stamp::Unavailable), Age::Unavailable);
    assert_eq!(age_of(Stamp::Unavailable).number(), -1);
    assert_eq!(UNAVAILABLE, -1);
}

#[test]
fn stamp_ahead_is_zero_days_old() {
    assert_eq!(age_of(Stamp::Ahead), Age::Days(0));
    assert_eq!(age_of(Stamp::Ahead).number(), 0);
}

#[test]
fn elapsed_stamp_is_rounded_to_days() {
    let stamp = Stamp::Elapsed { secs: 5 * 86_400 + 50_000, nanos: 0 };
    assert_eq!(age_of(stamp), Age::Days(6));
    assert_eq!(age_of(stamp).number(), 6);
    let stamp = Stamp::Elapsed { secs: 5 * 86_400 + 40_000, nanos: 999 };
    assert_eq!(age_of(stamp).number(), 5);
}
