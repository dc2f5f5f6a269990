use animus_subject_sqlite::time::Timestamp;
use chrono::{DateTime, Timelike, Utc};

#[test]
fn an_instant_has_its_rfc3339_text() {
    for (secs, nanos, text) in [
        (0, 0, "1970-01-01T00:00:00+00:00"),
        (1_700_000_000, 120_000_000, "2023-11-14T22:13:20.120+00:00"),
        (1_700_000_000, 1_000, "2023-11-14T22:13:20.000001+00:00"),
        (1_700_000_000, 1, "2023-11-14T22:13:20.000000001+00:00"),
        (-62167219200, 0, "0000-01-01T00:00:00+00:00"),
        (253402300799, 999_999_999, "9999-12-31T23:59:59.999999999+00:00"),
        (59, 1_500_000_000, "1970-01-01T00:00:60.500+00:00"),
    ] {
        let t = Timestamp::new(secs, nanos).unwrap();
        assert_eq!(t.timestamp(), secs);
        assert_eq!(t.timestamp_subsec_nanos(), nanos);
        assert_eq!(t.to_rfc3339(), text);
        assert_eq!(Timestamp::parse_from_rfc3339(text), Ok(t));
    }
}

#[test]
fn a_year_of_five_digits_does_not_read_back() {
    let t = Timestamp::new(253402300800, 0).unwrap();
    assert_eq!(t.to_rfc3339(), "+10000-01-01T00:00:00+00:00");
    assert!(Timestamp::parse_from_rfc3339(&t.to_rfc3339()).is_err());
    let t = Timestamp::new(-62167219201, 0).unwrap();
    assert!(Timestamp::parse_from_rfc3339(&t.to_rfc3339()).is_err());
}

#[test]
fn the_range_is_that_of_the_calendar() {
    let first = DateTime::<Utc>::MIN_UTC.timestamp();
    let last = DateTime::<Utc>::MAX_UTC.timestamp();
    assert!(Timestamp::new(first, 0).is_some());
    assert!(Timestamp::new(first - 1, 0).is_none());
    assert!(Timestamp::new(last, 999_999_999).is_some());
    assert!(Timestamp::new(last + 1, 0).is_none());
    for secs in [first, last, -2, -1, 0, 58, 59] {
        for nanos in [0, 999_999_999, 1_000_000_000, 1_999_999_999, 2_000_000_000] {
            let naive = DateTime::from_timestamp(secs, 0).unwrap().naive_utc();
            let t = naive.with_nanosecond(nanos).map(|t| t.and_utc());
            let own = Timestamp::new(secs, nanos);
            assert_eq!(own.is_some(), t.is_some(), "{secs} {nanos}");
            assert_eq!(own.map(|own| own.to_rfc3339()), t.map(|t| t.to_rfc3339()));
        }
    }
}

#[test]
fn a_second_too_much_is_written_as_the_second_after() {
    let t = Timestamp::new(10, 1_250_000_000).unwrap();
    assert_eq!(t.timestamp(), 10);
    assert_eq!(t.timestamp_subsec_nanos(), 1_250_000_000);
    assert_eq!(t.to_rfc3339(), "1970-01-01T00:00:11.250+00:00");
    assert_eq!(
        Timestamp::parse_from_rfc3339(&t.to_rfc3339()),
        Ok(Timestamp::new(11, 250_000_000).unwrap())
    );
}

#[test]
fn now_goes_with_the_clock() {
    let before = Utc::now().timestamp();
    let now = Timestamp::now().timestamp();
    let after = Utc::now().timestamp();
    assert!(before <= now && now <= after);
}

#[test]
fn instants_are_ordered() {
    let t = |secs, nanos| Timestamp::new(secs, nanos).unwrap();
    assert!(t(0, 999_999_999) < t(1, 0));
    assert!(t(1, 0) < t(1, 1));
}

#[test]
fn texts_sort_as_their_instants() {
    let t = |secs, nanos| Timestamp::new(secs, nanos).unwrap();
    let mut list = vec![
        t(-62167219200, 0),
        t(-1, 999_999_999),
        t(0, 0),
        t(0, 1),
        t(0, 1_000),
        t(0, 1_001),
        t(0, 120_000_000),
        t(0, 120_000_001),
        t(0, 120_001_000),
        t(0, 121_000_000),
        t(59, 999_999_999),
        t(59, 1_000_000_000),
        t(59, 1_500_000_000),
        t(60, 0),
        t(951_782_400, 0),
        t(253402300799, 999_999_999),
    ];
    list.sort();
    for pair in list.windows(2) {
        assert!(pair[0] < pair[1]);
        assert!(pair[0].to_rfc3339() < pair[1].to_rfc3339());
    }
}
