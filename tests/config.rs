use adfeed::config::{is_valid_level_name, is_valid_url, Config, ConfigError};
use adfeed::strmap::StrMap;

fn base_config() -> Config {
    Config {
        server_ip: "127.0.0.1".to_string(),
        server_port: 5000,
        currency: "$".to_string(),
        refresh_interval_minutes: 15,
        log_filename: "test.log".to_string(),
        database_name: "test.db".to_string(),
        url_filters: StrMap::new(),
    }
}

#[test]
fn test_validate_config() {
    let mut config = base_config();

    assert!(config.validate().is_ok());

    config.server_port = 0;
    assert!(config.validate().is_err());
    config.server_port = 5000;

    config.refresh_interval_minutes = 0;
    assert!(config.validate().is_err());
    config.refresh_interval_minutes = 15;

    let mut invalid_url_filters = StrMap::new();
    invalid_url_filters.insert("not-a-url".to_string(), StrMap::new());
    config.url_filters = invalid_url_filters;
    assert!(config.validate().is_err());

    let mut valid_url_filters = StrMap::new();
    let mut filters = StrMap::new();
    filters.insert("invalid-level".to_string(), vec!["keyword".to_string()]);
    valid_url_filters.insert("https://facebook.com/marketplace/item/1".to_string(), filters);
    config.url_filters = valid_url_filters;
    assert!(config.validate().is_err());

    let mut valid_url_filters_with_valid_levels = StrMap::new();
    let mut filters = StrMap::new();
    filters.insert("level1".to_string(), vec!["keyword".to_string()]);
    valid_url_filters_with_valid_levels
        .insert("https://facebook.com/marketplace/item/1".to_string(), filters);
    config.url_filters = valid_url_filters_with_valid_levels;
    assert!(config.validate().is_ok());
}

#[test]
fn zero_port_is_reported_first() {
    let mut config = base_config();
    config.server_port = 0;
    config.refresh_interval_minutes = 0;
    assert_eq!(config.validate(), Err(ConfigError::ZeroPort));
}

#[test]
fn zero_interval_is_reported() {
    let mut config = base_config();
    config.refresh_interval_minutes = 0;
    assert_eq!(config.validate(), Err(ConfigError::ZeroRefreshInterval));
}

#[test]
fn invalid_url_is_named() {
    let mut config = base_config();
    let mut f = StrMap::new();
    f.insert("https://ok.example/a".to_string(), StrMap::new());
    f.insert("not-a-url".to_string(), StrMap::new());
    config.url_filters = f;
    assert_eq!(config.validate(), Err(ConfigError::InvalidUrl("not-a-url".to_string())));
    let msg = config.validate().unwrap_err().message();
    assert_eq!(msg, "Invalid URL format: not-a-url");
}

#[test]
fn invalid_level_name_is_named() {
    let mut config = base_config();
    let mut levels = StrMap::new();
    levels.insert("level1".to_string(), vec![]);
    levels.insert("level".to_string(), vec!["x".to_string()]);
    let mut f = StrMap::new();
    f.insert("https://ok.example/a".to_string(), levels);
    config.url_filters = f;
    let err = config.validate().unwrap_err();
    assert_eq!(
        err,
        ConfigError::InvalidLevelName {
            level: "level".to_string(),
            url: "https://ok.example/a".to_string()
        }
    );
    assert_eq!(err.message(), "Invalid filter level name 'level' for URL 'https://ok.example/a'");
}

#[test]
fn url_and_level_name_checks() {
    assert!(is_valid_url("https://facebook.com/marketplace/item/1"));
    assert!(!is_valid_url("not-a-url"));
    assert!(!is_valid_url("mailto:someone@example.com"));
    assert!(is_valid_level_name("level12"));
    assert!(!is_valid_level_name("level"));
    assert!(!is_valid_level_name("levelA"));
}
