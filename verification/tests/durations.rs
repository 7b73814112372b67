use chrono::{DateTime, Duration, Utc};
use rst_cmns::durations::{format_duration, format_span, FormatError, Span};

#[test]
fn test_format_seconds() {
    let dur = Duration::seconds(5);
    let s1 = format_duration(dur).unwrap();
    assert_eq!(s1, "5s");
}

#[test]
fn test_format_default_duration() {
    let dur = Duration::default();
    let s1 = format_duration(dur).unwrap();
    assert_eq!(s1, "");
}

#[test]
fn test_format_seconds_with_millis() {
    let dur = Duration::seconds(5) + Duration::milliseconds(123);
    let s1 = format_duration(dur).unwrap();
    assert_eq!(s1, "5s, 123ms");
}

#[test]
fn test_format_minutes() {
    let dur = Duration::minutes(5);
    let s1 = format_duration(dur).unwrap();
    assert_eq!(s1, "5m");
}

#[test]
fn test_format_minutes_with_seconds() {
    let dur = Duration::minutes(5) + Duration::seconds(23);
    let s1 = format_duration(dur).unwrap();
    assert_eq!(s1, "5m, 23s");
}

#[test]
fn test_format_hours_with_minutes_with_seconds() {
    let dur = Duration::hours(1) + Duration::minutes(23) + Duration::seconds(45);
    let s1 = format_duration(dur).unwrap();
    assert_eq!(s1, "1h, 23m, 45s");
}

#[test]
fn test_format_chrono_timedelta() {
    let d1: DateTime<Utc> = DateTime::parse_from_rfc3339("2023-07-21T12:34:56Z").unwrap().to_utc();
    let d2 = DateTime::parse_from_rfc3339("2023-07-21T12:44:56Z").unwrap().to_utc();
    let dur = d1.signed_duration_since(d2);
    let s1 = format_duration(dur).unwrap();
    assert_eq!(s1, "10m");
}

#[test]
fn test_format_negative_duration_uses_magnitude() {
    let s1 = format_duration(Duration::seconds(-5)).unwrap();
    assert_eq!(s1, "5s");
    let s2 = format_duration(Duration::minutes(-5) - Duration::seconds(23)).unwrap();
    assert_eq!(s2, "5m, 23s");
}

#[test]
fn test_format_all_units() {
    let dur = Duration::weeks(2)
        + Duration::days(3)
        + Duration::hours(4)
        + Duration::minutes(5)
        + Duration::seconds(6)
        + Duration::milliseconds(7)
        + Duration::microseconds(8)
        + Duration::nanoseconds(9);
    let s1 = format_duration(dur).unwrap();
    assert_eq!(s1, "2w, 3d, 4h, 5m, 6s, 7ms, 8\u{3bc}s, 9ns");
}

#[test]
fn test_format_multi_digit_values() {
    let s1 = format_duration(Duration::milliseconds(100)).unwrap();
    assert_eq!(s1, "100ms");
    let s2 = format_duration(Duration::seconds(605)).unwrap();
    assert_eq!(s2, "10m, 5s");
}

#[test]
fn test_format_overflowing_duration_fails() {
    let dur = Duration::milliseconds(i64::MAX);
    let r = format_duration(dur);
    assert_eq!(r, Err(FormatError::SubsecondOverflow));
}

#[test]
fn test_format_is_deterministic() {
    let dur = Duration::hours(1) + Duration::nanoseconds(42);
    let s1 = format_duration(dur).unwrap();
    let s2 = format_duration(dur).unwrap();
    assert_eq!(s1, s2);
}

#[test]
fn test_span_new_accepts_consistent_parts() {
    let sp = Span::new(5, 123_000_000).unwrap();
    assert_eq!(format_span(sp).unwrap(), "5s, 123ms");
    let neg = Span::new(-5, -123_000_000).unwrap();
    assert_eq!(format_span(neg).unwrap(), "5s, 123ms");
}

#[test]
fn test_span_new_rejects_inconsistent_parts() {
    assert!(Span::new(5, -1).is_none());
    assert!(Span::new(-5, 1).is_none());
    assert!(Span::new(0, 1_000_000_000).is_none());
    assert!(Span::new(i64::MIN, 0).is_none());
    assert!(Span::new(0, 999_999_999).is_some());
}

#[test]
fn test_format_span_zero() {
    let sp = Span::new(0, 0).unwrap();
    assert_eq!(format_span(sp).unwrap(), "");
}

#[test]
fn test_format_span_at_nanosecond_limit() {
    // i64::MAX nanoseconds exactly: still representable as whole nanoseconds.
    let at_limit = Span::new(9_223_372_036, 854_775_807).unwrap();
    assert_eq!(
        format_span(at_limit).unwrap(),
        "15250w, 1d, 23h, 47m, 16s, 854ms, 775\u{3bc}s, 807ns"
    );
    // One nanosecond past the limit: the defensive error path.
    let past_limit = Span::new(9_223_372_036, 854_775_808).unwrap();
    assert_eq!(format_span(past_limit), Err(FormatError::SubsecondOverflow));
}
