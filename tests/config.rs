use thing_service::config::{parse_rate_limit, Config, ConfigError, ADDR_KEY, REQ_PER_SEC_KEY};

#[test]
fn rate_limit_values() {
    assert_eq!(parse_rate_limit("10").unwrap(), 10);
    assert_eq!(parse_rate_limit("+5").unwrap(), 5);
    assert_eq!(parse_rate_limit("007").unwrap(), 7);
    assert_eq!(parse_rate_limit(&usize::MAX.to_string()).unwrap(), usize::MAX);
}

#[test]
fn rate_limit_errors() {
    assert!(matches!(parse_rate_limit(""), Err(ConfigError::Missing)));
    assert!(matches!(parse_rate_limit("0"), Err(ConfigError::Zero)));
    assert!(matches!(parse_rate_limit("+0"), Err(ConfigError::Zero)));
    assert!(matches!(parse_rate_limit("abc"), Err(ConfigError::Invalid)));
    assert!(matches!(parse_rate_limit("+"), Err(ConfigError::Invalid)));
    assert!(matches!(parse_rate_limit("-3"), Err(ConfigError::Invalid)));
    assert!(matches!(parse_rate_limit(" 3"), Err(ConfigError::Invalid)));
    assert!(matches!(parse_rate_limit("3x"), Err(ConfigError::Invalid)));
    let too_big = format!("{}0", usize::MAX);
    assert!(matches!(parse_rate_limit(&too_big), Err(ConfigError::Invalid)));
}

#[test]
fn yaml_settings_are_read() {
    let config = Config::from_yaml("Addr: \"0.0.0.0:8080\"\nReqPerSec: \"10\"\n").unwrap();
    assert_eq!(config.get(ADDR_KEY), "0.0.0.0:8080");
    assert_eq!(config.get(REQ_PER_SEC_KEY), "10");
    assert_eq!(config.get("Cert"), "");
    assert_eq!(config.rate_limit().unwrap(), 10);
}

#[test]
fn unreadable_yaml_is_an_error() {
    assert!(matches!(Config::from_yaml("- a\n- b\n"), Err(ConfigError::Unreadable(_))));
}

#[test]
fn missing_rate_is_an_error() {
    let config = Config::from_entries(vec![("Addr".to_string(), "x".to_string())]);
    assert!(matches!(config.rate_limit(), Err(ConfigError::Missing)));
}

#[test]
fn first_entry_of_a_key_wins() {
    let config = Config::from_entries(vec![
        ("K".to_string(), "one".to_string()),
        ("K".to_string(), "two".to_string()),
        ("ReqPerSec".to_string(), "0".to_string()),
    ]);
    assert_eq!(config.get("K"), "one");
    assert!(matches!(config.rate_limit(), Err(ConfigError::Zero)));
}
