use twin_sync::clock::Timestamp;

#[test]
fn parses_rfc3339() {
    assert_eq!(
        Timestamp::parse("2022-01-01T12:00:00Z"),
        Some(Timestamp { secs: 1641038400, nanos: 0 })
    );
    assert_eq!(
        Timestamp::parse("2022-01-01T13:00:00.250+01:00"),
        Some(Timestamp { secs: 1641038400, nanos: 250_000_000 })
    );
    assert_eq!(
        Timestamp::parse("2024-02-29T23:59:59+00:00"),
        Some(Timestamp { secs: 1709251199, nanos: 0 })
    );
}

#[test]
fn rejects_what_is_no_rfc3339() {
    assert_eq!(Timestamp::parse("UNKNOWN"), None);
    assert_eq!(Timestamp::parse(""), None);
    assert_eq!(Timestamp::parse("2022-01-01"), None);
    assert_eq!(Timestamp::parse("2022-13-01T00:00:00Z"), None);
}

#[test]
fn writes_rfc3339() {
    let t = Timestamp { secs: 1641038400, nanos: 0 };
    assert_eq!(t.to_rfc3339(), Some("2022-01-01T12:00:00+00:00".to_string()));
    let t = Timestamp { secs: 1641038400, nanos: 500_000_000 };
    assert_eq!(t.to_rfc3339(), Some("2022-01-01T12:00:00.500+00:00".to_string()));
}

#[test]
fn a_time_out_of_range_has_no_text() {
    let t = Timestamp { secs: i64::MAX, nanos: 0 };
    assert_eq!(t.to_rfc3339(), None);
}

#[test]
fn what_is_written_is_read_back() {
    let t = Timestamp { secs: 1709251199, nanos: 123_456_789 };
    let text = t.to_rfc3339().unwrap();
    assert_eq!(Timestamp::parse(&text), Some(t));
}

#[test]
fn whole_seconds_between_two_times() {
    let then = Timestamp { secs: 1000, nanos: 0 };
    assert_eq!(Timestamp { secs: 1301, nanos: 0 }.seconds_since(&then), Some(301));
    assert_eq!(Timestamp { secs: 1000, nanos: 0 }.seconds_since(&then), Some(0));
    assert_eq!(Timestamp { secs: 999, nanos: 0 }.seconds_since(&then), Some(-1));
}

#[test]
fn the_fraction_of_a_second_is_cut_off_towards_zero() {
    let then = Timestamp { secs: 1000, nanos: 500_000_000 };
    assert_eq!(Timestamp { secs: 1300, nanos: 200_000_000 }.seconds_since(&then), Some(299));
    assert_eq!(Timestamp { secs: 1300, nanos: 500_000_000 }.seconds_since(&then), Some(300));
    assert_eq!(Timestamp { secs: 1000, nanos: 0 }.seconds_since(&then), Some(0));
    assert_eq!(Timestamp { secs: 999, nanos: 0 }.seconds_since(&then), Some(-1));
    assert_eq!(Timestamp { secs: 998, nanos: 600_000_000 }.seconds_since(&then), Some(-1));
    assert_eq!(Timestamp { secs: 998, nanos: 500_000_000 }.seconds_since(&then), Some(-2));
}

#[test]
fn a_leap_second_between_two_times_is_counted() {
    let then = Timestamp { secs: 59, nanos: 1_000_000_000 };
    assert_eq!(Timestamp { secs: 61, nanos: 0 }.seconds_since(&then), Some(2));
    assert_eq!(Timestamp { secs: 60, nanos: 0 }.seconds_since(&then), Some(1));
    assert_eq!(then.seconds_since(&Timestamp { secs: 61, nanos: 0 }), Some(-2));
    assert_eq!(then.seconds_since(&Timestamp { secs: 59, nanos: 0 }), Some(1));
    assert_eq!(then.seconds_since(&then), Some(0));
}

#[test]
fn a_time_that_denotes_no_date_has_no_distance() {
    let now = Timestamp { secs: 1000, nanos: 0 };
    assert_eq!(Timestamp { secs: i64::MAX, nanos: 0 }.seconds_since(&now), None);
    assert_eq!(now.seconds_since(&Timestamp { secs: i64::MIN, nanos: 0 }), None);
    assert_eq!(now.seconds_since(&Timestamp { secs: 0, nanos: 2_000_000_000 }), None);
    assert_eq!(now.seconds_since(&Timestamp { secs: 0, nanos: 1_000_000_000 }), None);
}
