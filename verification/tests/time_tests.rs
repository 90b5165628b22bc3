use http_server::calendar::civil_from_days;
use http_server::time::{Duration, Timestamp};

#[test]
fn duration_keeps_seconds_and_nanoseconds() {
    let d = Duration::new(3, 500_000_000).unwrap();
    assert_eq!(d.as_secs(), 3);
    assert_eq!(d.subsec_nanos(), 500_000_000);
}

#[test]
fn duration_refuses_a_full_second_of_nanoseconds() {
    assert!(Duration::new(0, 1_000_000_000).is_none());
    assert!(Duration::new(0, 999_999_999).is_some());
}

#[test]
fn duration_from_secs_and_zero() {
    assert_eq!(Duration::from_secs(3600), Duration::new(3600, 0).unwrap());
    assert_eq!(Duration::zero(), Duration::from_secs(0));
}

#[test]
fn timestamp_keeps_seconds_and_nanoseconds() {
    let t = Timestamp::new(-5, 250).unwrap();
    assert_eq!(t.unix_secs(), -5);
    assert_eq!(t.subsec_nanos(), 250);
    assert!(Timestamp::new(0, 1_000_000_000).is_none());
    assert_eq!(Timestamp::from_unix_secs(7), Timestamp::new(7, 0).unwrap());
}

#[test]
fn until_expiry_is_the_time_left() {
    let modified = Timestamp::new(1_000, 200_000_000).unwrap();
    let now = Timestamp::new(1_100, 700_000_000).unwrap();
    let left = modified.until_expiry(Duration::from_secs(900), now);
    assert_eq!(left, Duration::new(799, 500_000_000).unwrap());
}

#[test]
fn until_expiry_is_zero_once_expired() {
    let modified = Timestamp::from_unix_secs(1_000);
    let lifetime = Duration::from_secs(900);
    assert_eq!(
        modified.until_expiry(lifetime, Timestamp::from_unix_secs(1_900)),
        Duration::zero()
    );
    assert_eq!(
        modified.until_expiry(lifetime, Timestamp::from_unix_secs(5_000)),
        Duration::zero()
    );
    assert_eq!(
        modified.until_expiry(lifetime, Timestamp::new(1_899, 999_999_999).unwrap()),
        Duration::new(0, 1).unwrap()
    );
}

#[test]
fn until_expiry_counts_from_before_the_epoch() {
    let modified = Timestamp::new(-10, 0).unwrap();
    let now = Timestamp::new(-8, 500_000_000).unwrap();
    assert_eq!(
        modified.until_expiry(Duration::from_secs(5), now),
        Duration::new(2, 500_000_000).unwrap()
    );
}

#[test]
fn expiry_fits_unless_the_time_left_is_too_long() {
    let now = Timestamp::from_unix_secs(0);
    let longest = Duration::new(u64::MAX, 999_999_999).unwrap();
    assert!(Timestamp::from_unix_secs(0).expiry_fits(longest, now));
    assert!(!Timestamp::new(0, 1).unwrap().expiry_fits(longest, now));
    assert!(Timestamp::from_unix_secs(-1).expiry_fits(longest, now));
    assert!(Timestamp::from_unix_secs(i64::MAX)
        .expiry_fits(Duration::from_secs(0), Timestamp::from_unix_secs(i64::MIN)));
    assert!(!Timestamp::from_unix_secs(i64::MAX)
        .expiry_fits(Duration::from_secs(1), Timestamp::from_unix_secs(i64::MIN)));
}

#[test]
fn until_expiry_at_the_limit() {
    let left = Timestamp::from_unix_secs(i64::MAX)
        .until_expiry(Duration::from_secs(0), Timestamp::from_unix_secs(i64::MIN));
    assert_eq!(left, Duration::from_secs(u64::MAX));
}

#[test]
fn civil_dates() {
    assert_eq!(civil_from_days(0), (1970, 1, 1));
    assert_eq!(civil_from_days(-1), (1969, 12, 31));
    assert_eq!(civil_from_days(10_957), (2000, 1, 1));
    assert_eq!(civil_from_days(11_016), (2000, 2, 29));
    assert_eq!(civil_from_days(11_017), (2000, 3, 1));
    assert_eq!(civil_from_days(19_782), (2024, 2, 29));
    assert_eq!(civil_from_days(47_540), (2100, 2, 28));
    assert_eq!(civil_from_days(47_541), (2100, 3, 1));
    assert_eq!(civil_from_days(-719_528), (0, 1, 1));
    assert_eq!(civil_from_days(-719_529), (-1, 12, 31));
    assert_eq!(civil_from_days(2_932_896), (9999, 12, 31));
}

#[test]
fn civil_dates_at_the_ends_of_the_range() {
    let (year, month, day) = civil_from_days(i64::MAX);
    assert_eq!((year, month, day), (25_252_734_927_768_524, 7, 27));
    let (year, month, day) = civil_from_days(i64::MIN);
    assert_eq!((year, month, day), (-25_252_734_927_764_585, 6, 7));
}

#[test]
fn rfc3339_of_the_epoch() {
    assert_eq!(
        Timestamp::from_unix_secs(0).to_rfc3339(),
        "1970-01-01T00:00:00.000000000Z"
    );
}

#[test]
fn rfc3339_with_nanoseconds() {
    assert_eq!(
        Timestamp::new(1_709_210_096, 789).unwrap().to_rfc3339(),
        "2024-02-29T12:34:56.000000789Z"
    );
    assert_eq!(
        Timestamp::new(1_700_000_000, 123_456_789).unwrap().to_rfc3339(),
        "2023-11-14T22:13:20.123456789Z"
    );
}

#[test]
fn rfc3339_before_the_epoch() {
    assert_eq!(
        Timestamp::new(-1, 999_999_999).unwrap().to_rfc3339(),
        "1969-12-31T23:59:59.999999999Z"
    );
    assert_eq!(
        Timestamp::from_unix_secs(-62_167_219_200).to_rfc3339(),
        "0000-01-01T00:00:00.000000000Z"
    );
}

#[test]
fn rfc3339_outside_four_digit_years() {
    assert_eq!(
        Timestamp::from_unix_secs(253_402_300_799).to_rfc3339(),
        "9999-12-31T23:59:59.000000000Z"
    );
    assert_eq!(
        Timestamp::from_unix_secs(253_402_300_800).to_rfc3339(),
        "10000-01-01T00:00:00.000000000Z"
    );
    assert_eq!(
        Timestamp::from_unix_secs(-62_167_219_201).to_rfc3339(),
        "-0001-12-31T23:59:59.000000000Z"
    );
}

#[test]
fn timestamps_on_both_sides_of_the_epoch() {
    let offset = |secs: u64, nanos: u32| Duration::new(secs, nanos).unwrap();
    assert_eq!(Timestamp::saturating_after_epoch(offset(5, 250)), Timestamp::new(5, 250).unwrap());
    assert_eq!(
        Timestamp::saturating_after_epoch(offset(i64::MAX as u64, 7)),
        Timestamp::new(i64::MAX, 7).unwrap()
    );
    assert_eq!(Timestamp::saturating_before_epoch(offset(0, 0)), Timestamp::from_unix_secs(0));
    assert_eq!(Timestamp::saturating_before_epoch(offset(5, 0)), Timestamp::from_unix_secs(-5));
    assert_eq!(
        Timestamp::saturating_before_epoch(offset(5, 250_000_000)),
        Timestamp::new(-6, 750_000_000).unwrap()
    );
    assert_eq!(
        Timestamp::saturating_before_epoch(offset(0, 1)),
        Timestamp::new(-1, 999_999_999).unwrap()
    );
    assert_eq!(
        Timestamp::saturating_before_epoch(offset(1 << 63, 0)),
        Timestamp::from_unix_secs(i64::MIN)
    );
    assert_eq!(
        Timestamp::saturating_before_epoch(offset((1 << 63) - 1, 1)),
        Timestamp::new(i64::MIN, 999_999_999).unwrap()
    );
}

#[test]
fn timestamps_beyond_the_range_are_the_nearest_there_is() {
    let offset = |secs: u64, nanos: u32| Duration::new(secs, nanos).unwrap();
    let latest = Timestamp::new(i64::MAX, 999_999_999).unwrap();
    let earliest = Timestamp::from_unix_secs(i64::MIN);
    assert_eq!(Timestamp::saturating_after_epoch(offset(i64::MAX as u64, 999_999_999)), latest);
    assert_eq!(Timestamp::saturating_after_epoch(offset(i64::MAX as u64 + 1, 0)), latest);
    assert_eq!(Timestamp::saturating_after_epoch(offset(u64::MAX, 5)), latest);
    assert_eq!(Timestamp::saturating_before_epoch(offset(1 << 63, 1)), earliest);
    assert_eq!(Timestamp::saturating_before_epoch(offset(u64::MAX, 0)), earliest);
    assert_eq!(Timestamp::saturating_before_epoch(offset(u64::MAX, 999_999_999)), earliest);
}

#[test]
fn saturating_duration_carries_whole_seconds() {
    assert_eq!(Duration::saturating_new(3, 500_000_000), Duration::new(3, 500_000_000).unwrap());
    assert_eq!(Duration::saturating_new(3, 1_000_000_000), Duration::from_secs(4));
    assert_eq!(
        Duration::saturating_new(3, u32::MAX),
        Duration::new(7, 294_967_295).unwrap()
    );
    assert_eq!(
        Duration::saturating_new(u64::MAX, 999_999_999),
        Duration::new(u64::MAX, 999_999_999).unwrap()
    );
    assert_eq!(
        Duration::saturating_new(u64::MAX, 1_000_000_000),
        Duration::new(u64::MAX, 999_999_999).unwrap()
    );
    assert_eq!(
        Duration::saturating_new(u64::MAX - 3, u32::MAX),
        Duration::new(u64::MAX, 999_999_999).unwrap()
    );
    assert_eq!(
        Duration::saturating_new(u64::MAX - 4, u32::MAX),
        Duration::new(u64::MAX, 294_967_295).unwrap()
    );
}
