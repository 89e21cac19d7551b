use lticket::duration::{parse_checked_duration, parse_duration, DurationError};
use lticket::validation::ValidationError;

#[test]
fn unit_form_durations() {
    assert_eq!(parse_duration("2h30m").unwrap(), (2, 30));
    assert_eq!(parse_duration("90m").unwrap(), (0, 90));
    assert_eq!(parse_duration("3h").unwrap(), (3, 0));
    assert_eq!(parse_duration("xh5m").unwrap(), (0, 5));
    assert_eq!(parse_duration("2h").unwrap(), (2, 0));
    assert_eq!(parse_duration("h").unwrap(), (0, 0));
    assert_eq!(parse_duration("30m2h").unwrap(), (0, 0));
    assert_eq!(parse_duration("1.5h").unwrap(), (1, 30));
    assert_eq!(parse_duration("0.25h").unwrap(), (0, 15));
    assert_eq!(parse_duration("1.5h15m").unwrap(), (1, 45));
    assert_eq!(parse_duration("-2147483648h").unwrap(), (i32::MIN, 0));
    assert_eq!(parse_duration("x.5h").unwrap(), (0, 0));
}

#[test]
fn decimal_form_durations() {
    assert_eq!(parse_duration("1.5").unwrap(), (1, 30));
    assert_eq!(parse_duration("2").unwrap(), (2, 0));
    assert_eq!(parse_duration("0.25").unwrap(), (0, 15));
    assert_eq!(parse_duration(".5").unwrap(), (0, 30));
    assert_eq!(parse_duration("1.99").unwrap(), (1, 59));
    assert_eq!(parse_duration("0.35").unwrap(), (0, 21));
    assert_eq!(parse_duration("-1.5").unwrap(), (-1, -30));
}

#[test]
fn unreadable_durations_fail() {
    assert!(matches!(parse_duration("abc"), Err(DurationError::InvalidFormat)));
    assert!(matches!(parse_duration(""), Err(DurationError::InvalidFormat)));
    assert!(matches!(parse_duration("."), Err(DurationError::InvalidFormat)));
    assert!(matches!(parse_duration("1.2.3"), Err(DurationError::InvalidFormat)));
    assert!(matches!(parse_duration("2e1"), Err(DurationError::InvalidFormat)));
}

#[test]
fn checked_durations_enforce_the_range() {
    assert_eq!(parse_checked_duration("2h30m").unwrap(), (2, 30));
    assert_eq!(parse_checked_duration("1.5h").unwrap(), (1, 30));
    match parse_checked_duration("90m") {
        Err(DurationError::InvalidTime(ValidationError::InvalidTime(t))) => assert_eq!(t, "0h 90m"),
        other => panic!("unexpected {:?}", other),
    }
    assert!(matches!(parse_checked_duration("25h"), Err(DurationError::InvalidTime(_))));
    assert!(matches!(parse_checked_duration("abc"), Err(DurationError::InvalidFormat)));
}
