use traffic_quota::config::{build_config, fallback_limit, resolve, ConfigError, Limit};
use traffic_quota::units::{byte_conversion, ParseError, UnitType};

fn entry(name: &str, reset_day: u8, quota: &str) -> (String, u8, String) {
    (name.to_string(), reset_day, quota.to_string())
}

#[test]
fn build_config_parses_every_quota() {
    let config = build_config(
        "http://prom:9090".to_string(),
        UnitType::Decimal,
        vec![entry("alpha", 5, "1tb"), entry("beta", 28, "500gb")],
    )
    .unwrap();
    assert_eq!(config.prometheus_url, "http://prom:9090");
    assert_eq!(config.limits.len(), 2);
    assert_eq!(config.limits[0].0, "alpha");
    assert_eq!(config.limits[0].1, Limit { reset_day: 5, limit: 1_000_000_000_000 });
    assert_eq!(config.limits[1].0, "beta");
    assert_eq!(config.limits[1].1, Limit { reset_day: 28, limit: 500_000_000_000 });
}

#[test]
fn build_config_rejects_bad_reset_day() {
    let low = build_config(
        "u".to_string(),
        UnitType::Decimal,
        vec![entry("alpha", 0, "1tb")],
    );
    assert_eq!(low.unwrap_err(), ConfigError::ResetDayOutOfRange);
    let high = build_config(
        "u".to_string(),
        UnitType::Decimal,
        vec![entry("alpha", 3, "1tb"), entry("beta", 32, "1tb")],
    );
    assert_eq!(high.unwrap_err(), ConfigError::ResetDayOutOfRange);
}

#[test]
fn build_config_rejects_bad_quota_string() {
    let no_digits = build_config(
        "u".to_string(),
        UnitType::Decimal,
        vec![entry("alpha", 1, "tb")],
    );
    assert_eq!(no_digits.unwrap_err(), ConfigError::Quota(ParseError::NoDigits));
    let bad_unit = build_config(
        "u".to_string(),
        UnitType::Binary,
        vec![entry("alpha", 1, "5parsecs")],
    );
    assert_eq!(bad_unit.unwrap_err(), ConfigError::Quota(ParseError::UnknownUnit));
}

#[test]
fn resolve_finds_configured_limit() {
    let config = build_config(
        "u".to_string(),
        UnitType::Decimal,
        vec![entry("alpha", 5, "1kb"), entry("beta", 9, "2kb")],
    )
    .unwrap();
    assert_eq!(resolve(&config, &"alpha".to_string()), Limit { reset_day: 5, limit: 1000 });
    assert_eq!(resolve(&config, &"beta".to_string()), Limit { reset_day: 9, limit: 2000 });
}

#[test]
fn resolve_falls_back_for_unknown_instance() {
    let config = build_config(
        "u".to_string(),
        UnitType::Decimal,
        vec![entry("alpha", 5, "100tb")],
    )
    .unwrap();
    let lim = resolve(&config, &"stranger".to_string());
    // Effectively unlimited: resets on the 1st, quota far above anything
    // realistically configured.
    assert_eq!(lim.reset_day, 1);
    assert_eq!(lim.limit, 9_999_000_000_000_000);
    assert!(lim.limit > resolve(&config, &"alpha".to_string()).limit);
}

#[test]
fn fallback_is_9999_terabytes_under_each_convention() {
    let decimal = fallback_limit(UnitType::Decimal);
    assert_eq!(decimal, Limit { reset_day: 1, limit: 9_999_000_000_000_000 });
    assert_eq!(Some(decimal.limit), byte_conversion("9999tb", &UnitType::Decimal));
    let binary = fallback_limit(UnitType::Binary);
    assert_eq!(binary, Limit { reset_day: 1, limit: 10_994_016_766_132_224 });
    assert_eq!(Some(binary.limit), byte_conversion("9999tb", &UnitType::Binary));
}
