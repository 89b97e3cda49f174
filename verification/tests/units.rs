use traffic_quota::units::{byte_conversion, parse_quota, ParseError, UnitType};

#[test]
fn parse_1tb_decimal() {
    assert_eq!(parse_quota("1tb", UnitType::Decimal), Ok(1_000_000_000_000));
}

#[test]
fn parse_1tb_binary() {
    assert_eq!(parse_quota("1tb", UnitType::Binary), Ok(1_099_511_627_776));
}

#[test]
fn parse_5gb_decimal() {
    assert_eq!(parse_quota("5gb", UnitType::Decimal), Ok(5_000_000_000));
}

#[test]
fn parse_all_units_decimal() {
    assert_eq!(parse_quota("7b", UnitType::Decimal), Ok(7));
    assert_eq!(parse_quota("7kb", UnitType::Decimal), Ok(7_000));
    assert_eq!(parse_quota("7mb", UnitType::Decimal), Ok(7_000_000));
    assert_eq!(parse_quota("7gb", UnitType::Decimal), Ok(7_000_000_000));
    assert_eq!(parse_quota("7tb", UnitType::Decimal), Ok(7_000_000_000_000));
}

#[test]
fn parse_all_units_binary() {
    assert_eq!(parse_quota("7b", UnitType::Binary), Ok(7));
    assert_eq!(parse_quota("7kb", UnitType::Binary), Ok(7 * 1024));
    assert_eq!(parse_quota("7mb", UnitType::Binary), Ok(7 * 1024 * 1024));
    assert_eq!(parse_quota("7gb", UnitType::Binary), Ok(7 * 1024 * 1024 * 1024));
    assert_eq!(parse_quota("7tb", UnitType::Binary), Ok(7 * 1024 * 1024 * 1024 * 1024));
}

#[test]
fn parse_is_case_insensitive() {
    assert_eq!(parse_quota("2KB", UnitType::Decimal), Ok(2_000));
    assert_eq!(parse_quota("2kB", UnitType::Decimal), Ok(2_000));
    assert_eq!(parse_quota("2Kb", UnitType::Decimal), Ok(2_000));
    assert_eq!(parse_quota("3TB", UnitType::Binary), Ok(3 * 1_099_511_627_776));
    assert_eq!(parse_quota("4B", UnitType::Binary), Ok(4));
}

#[test]
fn parse_unknown_unit() {
    assert_eq!(parse_quota("3xz", UnitType::Decimal), Err(ParseError::UnknownUnit));
    assert_eq!(parse_quota("3xz", UnitType::Binary), Err(ParseError::UnknownUnit));
    assert_eq!(parse_quota("3", UnitType::Decimal), Err(ParseError::UnknownUnit));
    assert_eq!(parse_quota("3kbb", UnitType::Decimal), Err(ParseError::UnknownUnit));
}

#[test]
fn parse_no_digits() {
    assert_eq!(parse_quota("tb", UnitType::Decimal), Err(ParseError::NoDigits));
    assert_eq!(parse_quota("", UnitType::Decimal), Err(ParseError::NoDigits));
    assert_eq!(parse_quota("tb", UnitType::Binary), Err(ParseError::NoDigits));
}

#[test]
fn parse_magnitude_overflow() {
    // Twenty digits exceed what 64 bits can hold.
    assert_eq!(
        parse_quota("99999999999999999999b", UnitType::Decimal),
        Err(ParseError::Overflow)
    );
    // u64::MAX itself still fits.
    assert_eq!(
        parse_quota("18446744073709551615b", UnitType::Decimal),
        Ok(u64::MAX)
    );
    assert_eq!(
        parse_quota("18446744073709551616b", UnitType::Decimal),
        Err(ParseError::Overflow)
    );
}

#[test]
fn parse_scaled_overflow() {
    // The magnitude fits in 64 bits but the scaled byte count does not.
    assert_eq!(
        parse_quota("1000000000000gb", UnitType::Decimal),
        Err(ParseError::Overflow)
    );
    assert_eq!(
        parse_quota("17179869184gb", UnitType::Binary),
        Err(ParseError::Overflow)
    );
}

#[test]
fn parse_is_idempotent() {
    // A pure function: the same input under the same convention always
    // yields the same byte count.
    let first = parse_quota("123gb", UnitType::Binary);
    let second = parse_quota("123gb", UnitType::Binary);
    assert_eq!(first, second);
    let third = parse_quota("45mb", UnitType::Decimal);
    let fourth = parse_quota("45mb", UnitType::Decimal);
    assert_eq!(third, fourth);
}

#[test]
fn byte_conversion_matches_parse_quota() {
    assert_eq!(byte_conversion("1tb", &UnitType::Decimal), Some(1_000_000_000_000));
    assert_eq!(byte_conversion("1tb", &UnitType::Binary), Some(1_099_511_627_776));
    assert_eq!(byte_conversion("3xz", &UnitType::Decimal), None);
    assert_eq!(byte_conversion("tb", &UnitType::Decimal), None);
}
