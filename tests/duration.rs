use rcli::duration::{parse_duration, DurationError};

#[test]
fn test_parse_duration() {
    assert_eq!(parse_duration("14d").unwrap(), 14 * 24 * 60 * 60);
    assert_eq!(parse_duration("23m").unwrap(), 23 * 60);
    assert_eq!(parse_duration("12h").unwrap(), 12 * 60 * 60);
    assert_eq!(parse_duration("1s").unwrap(), 1);
}

#[test]
fn duration_exact_values() {
    assert_eq!(parse_duration("14d"), Ok(1209600));
    assert_eq!(parse_duration("23m"), Ok(1380));
    assert_eq!(parse_duration("12h"), Ok(43200));
    assert_eq!(parse_duration("0s"), Ok(0));
    assert_eq!(parse_duration("007m"), Ok(420));
}

#[test]
fn duration_empty_is_invalid_format() {
    assert_eq!(parse_duration(""), Err(DurationError::InvalidFormat));
}

#[test]
fn duration_unknown_unit() {
    assert_eq!(parse_duration("5x"), Err(DurationError::InvalidUnit));
    assert_eq!(parse_duration("5S"), Err(DurationError::InvalidUnit));
}

#[test]
fn duration_bad_number() {
    assert_eq!(parse_duration("xs"), Err(DurationError::InvalidNumber));
    assert_eq!(parse_duration("s"), Err(DurationError::InvalidNumber));
    assert_eq!(parse_duration("1.5h"), Err(DurationError::InvalidNumber));
    assert_eq!(parse_duration("-1s"), Err(DurationError::InvalidNumber));
    assert_eq!(parse_duration(" 1s"), Err(DurationError::InvalidNumber));
}

#[test]
fn duration_largest_values() {
    assert_eq!(parse_duration("18446744073709551615s"), Ok(u64::MAX));
    assert_eq!(parse_duration("18446744073709551616s"), Err(DurationError::InvalidNumber));
    assert_eq!(parse_duration("18446744073709551615d"), Err(DurationError::InvalidNumber));
    assert_eq!(parse_duration("213503982334601d"), Ok(213503982334601 * 86400));
}
