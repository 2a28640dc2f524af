use iemanja::config::errors::{ConfigLoadError, PartialConfigLoadError};
use iemanja::config::models::{ApiBind, Config, LogLevel, PartialConfig};

#[test]
fn test_partial_config_to_config_success() {
    let log_level = LogLevel::Info;
    let api_bind = ApiBind::Tcp("127.0.0.1:8080".to_string());
    let db_address = "foobar".to_string();

    let partial_config = PartialConfig {
        log_level: Some(log_level),
        api_bind: Some(api_bind),
        db_address: Some(db_address),
    };

    let config = Config::try_from(partial_config).unwrap();

    assert!(matches!(config.api_bind, ApiBind::Tcp(addr) if addr == "127.0.0.1:8080"));
    assert_eq!(config.db_address, "foobar");
}

#[test]
fn test_partial_config_missing_log_level() {
    let partial_config = PartialConfig {
        log_level: None,
        api_bind: Some(ApiBind::Tcp("127.0.0.1:8080".to_string())),
        db_address: Some("foobar".to_string()),
    };

    let result = Config::try_from(partial_config);
    assert!(matches!(result, Err(ConfigLoadError::MissingProperty(prop)) if prop == "log_level"));
}

#[test]
fn test_partial_config_missing_api_bind() {
    let partial_config = PartialConfig {
        log_level: Some(LogLevel::Info),
        api_bind: None,
        db_address: Some("foobar".to_string()),
    };

    let result = Config::try_from(partial_config);
    assert!(matches!(result, Err(ConfigLoadError::MissingProperty(prop)) if prop == "api_bind"));
}

#[test]
fn test_partial_config_missing_db_address() {
    let partial_config = PartialConfig {
        log_level: Some(LogLevel::Info),
        api_bind: Some(ApiBind::Tcp("127.0.0.1:8080".to_string())),
        db_address: None,
    };

    let result = Config::try_from(partial_config);
    assert!(matches!(result, Err(ConfigLoadError::MissingProperty(prop)) if prop == "db_address"));
}

#[test]
fn test_partial_config_merge() {
    let log_level_1 = LogLevel::Info;
    let api_bind_1 = ApiBind::Tcp("127.0.0.1:8080".to_string());
    let db_address_2 = "foobar".to_string();

    let partial_config_1 = PartialConfig {
        log_level: Some(log_level_1),
        api_bind: Some(api_bind_1),
        db_address: None,
    };

    let partial_config_2 = PartialConfig {
        log_level: None,
        api_bind: None,
        db_address: Some(db_address_2.clone()),
    };

    let merged_config = partial_config_1.merge(partial_config_2);

    assert!(matches!(merged_config.log_level, Some(LogLevel::Info)));
    assert!(matches!(merged_config.api_bind, Some(ApiBind::Tcp(_))));
    assert_eq!(merged_config.db_address, Some(db_address_2));
}

#[test]
fn test_log_level_try_from_accepts_all_levels() {
    assert!(matches!(LogLevel::try_from("trace"), Ok(LogLevel::Trace)));
    assert!(matches!(LogLevel::try_from("debug"), Ok(LogLevel::Debug)));
    assert!(matches!(LogLevel::try_from("info"), Ok(LogLevel::Info)));
    assert!(matches!(LogLevel::try_from("warn"), Ok(LogLevel::Warn)));
    assert!(matches!(LogLevel::try_from("error"), Ok(LogLevel::Error)));
}

#[test]
fn test_log_level_try_from_rejects_unknown() {
    let result = LogLevel::try_from("verbose");
    match result {
        Err(PartialConfigLoadError::UnsupportedLogLevel(level)) => {
            assert_eq!(level, "verbose");
        }
        _ => panic!("expected an unsupported-log-level error"),
    }
}

#[test]
fn test_config_load_error_message() {
    let err = ConfigLoadError::MissingProperty("db_address");
    assert_eq!(err.message(), "Missing property: db_address");
    let err = PartialConfigLoadError::UnsupportedLogLevel("loud".to_string());
    assert_eq!(err.message(), "Unsupported log level: loud");
}

#[test]
fn test_partial_config_default_is_empty() {
    let d = PartialConfig::default();
    assert!(d.log_level.is_none());
    assert!(d.api_bind.is_none());
    assert!(d.db_address.is_none());
}
