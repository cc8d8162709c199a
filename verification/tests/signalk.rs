use kinavis::signalk::parse_timestamp;
use kinavis::time::{Civil, Instant};

#[test]
fn a_signal_k_timestamp_is_read_to_the_nanosecond() {
    let at = parse_timestamp("2024-01-15T12:30:00.250Z");
    assert_eq!(at.map(|at| at.to_string()), Some("2024-01-15T12:30:00.250 UTC".to_owned()));
    let whole = parse_timestamp("2024-01-15T12:30:00+00:00");
    assert_eq!(whole.map(|at| at.to_string()), Some("2024-01-15T12:30:00.000 UTC".to_owned()));
}

#[test]
fn anything_else_is_not_a_timestamp() {
    for text in [
        "",
        "2024-01-15",
        "2024-01-15T12:30:00",
        "2024-01-15T12:30:00+02:00",
        "2024-02-30T12:30:00Z",
        "2024-01-15T12:30:00.1234567890Z",
        "2024-01-15T12:30:00.x1Z",
        "2024-01-15-01T12:30:00Z",
    ] {
        assert_eq!(parse_timestamp(text), None, "{text}");
    }
}

#[test]
fn nine_decimals_are_kept_and_fewer_are_scaled() {
    let at = parse_timestamp("1970-01-01T00:00:01.000000007Z").unwrap();
    assert_eq!(at.unix_nanos(), 1_000_000_007);
    let at = parse_timestamp("1970-01-01T00:00:00.5Z").unwrap();
    assert_eq!(at.unix_nanos(), 500_000_000);
    let leap_day = parse_timestamp("2024-02-29T00:00:00Z").unwrap();
    assert_eq!(leap_day, Instant::from_civil(Civil::date(2024, 2, 29)).unwrap());
    assert!(parse_timestamp("2023-02-29T00:00:00Z").is_none());
}

#[test]
fn a_calendar_reading_round_trips() {
    for nanos in [0i64, -1, 1_705_321_800_250_000_000, -5_000_000_000_000_000_000, i64::MAX, i64::MIN] {
        let at = Instant::from_unix_nanos(nanos);
        let civil = at.to_civil();
        if (1700..=2200).contains(&civil.year) {
            assert_eq!(Instant::from_civil(civil).unwrap(), at);
        }
    }
    let before = Instant::from_unix_nanos(-1).to_civil();
    assert_eq!((before.year, before.month, before.day, before.hour), (1969, 12, 31, 23));
    assert_eq!(before.nanos, 999_999_999);
    assert_eq!(Instant::from_unix_nanos(i64::MAX).to_civil().year, 2262);
}

#[test]
fn an_instant_is_written_in_utc_to_the_millisecond() {
    assert_eq!(Instant::from_unix_seconds(0).to_string(), "1970-01-01T00:00:00.000 UTC");
    let stamp = parse_timestamp("2026-09-25T12:04:05.678901Z").unwrap();
    assert_eq!(stamp.to_string(), "2026-09-25T12:04:05.678 UTC");
    assert_eq!(Instant::from_unix_nanos(-1).to_string(), "1969-12-31T23:59:59.999 UTC");
}
