use rtosu_dataprovider::config::{AppConfig, ConfigError, DEFAULT_CONFIG_FILE};

#[test]
fn defaults_are_valid() {
    let config = AppConfig::default();
    assert!(config.validate().is_ok());
    assert_eq!(config.server.port, 24050);
    assert_eq!(config.poll.poll_rate_hz, 60);
    assert_eq!(config.poll_interval_ms(), 16);
    assert_eq!(DEFAULT_CONFIG_FILE, "config.toml");
    assert!(AppConfig::generate_documented_template().contains("poll_rate_hz = 60"));
    assert!(config.features.enable_chat);
    assert!(!config.features.enable_pp);
}

#[test]
fn validation_names_the_bad_setting() {
    let mut config = AppConfig::default();
    config.server.port = 80;
    assert_eq!(config.validate(), Err(ConfigError::PortTooLow(80)));
    let mut config = AppConfig::default();
    config.poll.poll_rate_hz = 0;
    assert_eq!(config.validate(), Err(ConfigError::PollRateOutOfRange(0)));
    let mut config = AppConfig::default();
    config.poll.scan_budget_mb = 2048;
    assert_eq!(config.validate(), Err(ConfigError::ScanBudgetOutOfRange(2048)));
    let mut config = AppConfig::default();
    // The feature switches are not validated.
    config.features.enable_pp = true;
    config.features.enable_chat = false;
    assert!(config.validate().is_ok());
    let mut config = AppConfig::default();
    config.logging.max_log_files = 0;
    assert_eq!(config.validate(), Err(ConfigError::MaxLogFilesOutOfRange(0)));
    let mut config = AppConfig::default();
    config.logging.level = "loud".to_string();
    assert_eq!(config.validate(), Err(ConfigError::UnknownLogLevel));
    config.logging.level = "WARN".to_string();
    assert!(config.validate().is_ok());
    config.poll.poll_rate_hz = 1000;
    assert_eq!(config.poll_interval_ms(), 1);
}
