use bid::parse::parse_time;
use bid::time::TimeError;
use bid::time::TimeRange;
use bid::time::TimeUnit;

#[test]
fn parses_explicit_single_day() {
    assert_eq!(
        parse_time("1d".to_string()),
        Ok(TimeRange { scalar: 1, unit: TimeUnit::Day })
    );
}

#[test]
fn bare_unit_letter_defaults_to_one() {
    assert_eq!(
        parse_time("d".to_string()),
        Ok(TimeRange { scalar: 1, unit: TimeUnit::Day })
    );
    assert_eq!(
        parse_time("h".to_string()),
        Ok(TimeRange { scalar: 1, unit: TimeUnit::Hour })
    );
    assert_eq!(
        parse_time("m".to_string()),
        Ok(TimeRange { scalar: 1, unit: TimeUnit::Month })
    );
    assert_eq!(
        parse_time("y".to_string()),
        Ok(TimeRange { scalar: 1, unit: TimeUnit::Year })
    );
}

#[test]
fn parses_multi_digit_scalar() {
    assert_eq!(
        parse_time("3y".to_string()),
        Ok(TimeRange { scalar: 3, unit: TimeUnit::Year })
    );
    assert_eq!(
        parse_time("365d".to_string()),
        Ok(TimeRange { scalar: 365, unit: TimeUnit::Day })
    );
    assert_eq!(
        parse_time("10m".to_string()),
        Ok(TimeRange { scalar: 10, unit: TimeUnit::Month })
    );
}

#[test]
fn round_trips_explicit_input() {
    let parsed = parse_time("3y".to_string()).unwrap();
    assert_eq!(parsed.to_string(), "3y");
    let parsed = parse_time("48h".to_string()).unwrap();
    assert_eq!(parsed.to_string(), "48h");
}

#[test]
fn rejects_zero_scalar() {
    assert_eq!(parse_time("0d".to_string()), Err(TimeError::FormatError));
    assert_eq!(parse_time("0".to_string()), Err(TimeError::FormatError));
}

#[test]
fn rejects_empty_string() {
    assert_eq!(parse_time(String::new()), Err(TimeError::FormatError));
}

#[test]
fn rejects_unsupported_week_unit() {
    assert_eq!(parse_time("5w".to_string()), Err(TimeError::FormatError));
    assert_eq!(parse_time("w".to_string()), Err(TimeError::FormatError));
}

#[test]
fn rejects_leading_zero() {
    assert_eq!(parse_time("07d".to_string()), Err(TimeError::FormatError));
}

#[test]
fn rejects_extra_characters() {
    assert_eq!(parse_time("3dd".to_string()), Err(TimeError::FormatError));
    assert_eq!(parse_time(" 1d".to_string()), Err(TimeError::FormatError));
    assert_eq!(parse_time("1d ".to_string()), Err(TimeError::FormatError));
    assert_eq!(parse_time("1x".to_string()), Err(TimeError::FormatError));
    assert_eq!(parse_time("12".to_string()), Err(TimeError::FormatError));
}

#[test]
fn largest_scalar_fits() {
    assert_eq!(
        parse_time("18446744073709551615y".to_string()),
        Ok(TimeRange { scalar: u64::MAX, unit: TimeUnit::Year })
    );
}

#[test]
fn scalar_past_range_overflows() {
    assert_eq!(
        parse_time("18446744073709551616y".to_string()),
        Err(TimeError::NumericOverflow)
    );
    assert_eq!(
        parse_time("99999999999999999999999999d".to_string()),
        Err(TimeError::NumericOverflow)
    );
}

#[test]
fn unit_from_str_decodes_letters() {
    assert_eq!(TimeUnit::from_str("h"), Ok(TimeUnit::Hour));
    assert_eq!(TimeUnit::from_str("d"), Ok(TimeUnit::Day));
    assert_eq!(TimeUnit::from_str("m"), Ok(TimeUnit::Month));
    assert_eq!(TimeUnit::from_str("y"), Ok(TimeUnit::Year));
}

#[test]
fn unit_from_str_rejects_other_strings() {
    assert_eq!(TimeUnit::from_str("w"), Err(TimeError::FormatError));
    assert_eq!(TimeUnit::from_str(""), Err(TimeError::FormatError));
    assert_eq!(TimeUnit::from_str("hd"), Err(TimeError::FormatError));
    assert_eq!(TimeUnit::from_str("x"), Err(TimeError::FormatError));
}

#[test]
fn error_messages_are_stable() {
    assert_eq!(
        TimeError::FormatError.message(),
        "not a valid time range; try h, d, m, y"
    );
    assert_eq!(
        TimeError::NumericOverflow.message(),
        "time range scalar is too large"
    );
}
