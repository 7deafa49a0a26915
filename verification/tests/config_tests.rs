use vscode_latency_monitor::config::{Config, ConfigError};

#[test]
fn defaults_are_valid() {
    let config = Config::with_database_path("/var/tmp/metrics.db".to_string());
    assert_eq!(config.monitoring.interval_ms, 100);
    assert_eq!(config.monitoring.precision, "microsecond");
    assert_eq!(config.monitoring.buffer_size, 10000);
    assert_eq!(config.monitoring.enabled_components, vec!["vscode", "models", "terminal"]);
    assert_eq!(config.dashboard.port, 3030);
    assert_eq!(config.dashboard.auto_refresh_ms, 1000);
    assert_eq!(config.dashboard.theme, "dark");
    assert!(config.dashboard.enable_websocket);
    assert_eq!(config.storage.database_path, "/var/tmp/metrics.db");
    assert_eq!(config.storage.retention_days, 30);
    assert_eq!(config.storage.archive_threshold, 100000);
    assert!(config.storage.compression_enabled);
    assert!(config.integrations.wall_notification_system);
    assert!(config.integrations.enhanced_logging);
    assert!(config.integrations.copilot_tracking);
    assert!(!config.integrations.export_prometheus);
    assert_eq!(config.validate(), Ok(()));
}

#[test]
fn default_database_lies_under_the_home_directory() {
    let config = Config::default();
    let path = config.storage.database_path.replace('\\', "/");
    assert!(path.ends_with(".local/share/vscode-latency-monitor/metrics.db"));
    assert!(path.len() > ".local/share/vscode-latency-monitor/metrics.db".len());
    assert_eq!(config.monitoring.interval_ms, 100);
    assert_eq!(config.validate(), Ok(()));
}

#[test]
fn zero_interval_is_rejected() {
    let mut config = Config::with_database_path("db".to_string());
    config.monitoring.interval_ms = 0;
    assert_eq!(config.validate(), Err(ConfigError::ZeroInterval));
}

#[test]
fn zero_buffer_is_rejected() {
    let mut config = Config::with_database_path("db".to_string());
    config.monitoring.buffer_size = 0;
    assert_eq!(config.validate(), Err(ConfigError::ZeroBufferSize));
}

#[test]
fn privileged_port_is_rejected() {
    let mut config = Config::with_database_path("db".to_string());
    config.dashboard.port = 1023;
    assert_eq!(config.validate(), Err(ConfigError::PrivilegedPort));
    config.dashboard.port = 1024;
    assert_eq!(config.validate(), Ok(()));
    config.dashboard.port = 0;
    assert_eq!(config.validate(), Err(ConfigError::PrivilegedPort));
}

#[test]
fn zero_retention_is_rejected() {
    let mut config = Config::with_database_path("db".to_string());
    config.storage.retention_days = 0;
    assert_eq!(config.validate(), Err(ConfigError::ZeroRetention));
}

#[test]
fn the_first_fault_is_reported() {
    let mut config = Config::with_database_path("db".to_string());
    config.storage.retention_days = 0;
    config.dashboard.port = 80;
    assert_eq!(config.validate(), Err(ConfigError::PrivilegedPort));
    config.monitoring.buffer_size = 0;
    assert_eq!(config.validate(), Err(ConfigError::ZeroBufferSize));
    config.monitoring.interval_ms = 0;
    assert_eq!(config.validate(), Err(ConfigError::ZeroInterval));
}

#[test]
fn fault_messages() {
    assert_eq!(
        ConfigError::ZeroInterval.message(),
        "Monitoring interval must be greater than 0"
    );
    assert_eq!(ConfigError::ZeroBufferSize.message(), "Buffer size must be greater than 0");
    assert_eq!(ConfigError::PrivilegedPort.message(), "Dashboard port should be >= 1024");
    assert_eq!(ConfigError::ZeroRetention.message(), "Retention days must be greater than 0");
}

use vscode_latency_monitor::config::{handle_config, ConfigRequest};

#[test]
fn configuration_commands_are_read() {
    match handle_config("get", Some("dashboard.port".to_string()), None) {
        ConfigRequest::Show { key } => assert_eq!(key, "dashboard.port"),
        other => panic!("unexpected request: {:?}", other),
    }
    match handle_config("set", Some("theme".to_string()), Some("light".to_string())) {
        ConfigRequest::Assign { key, value } => {
            assert_eq!(key, "theme");
            assert_eq!(value, "light");
        }
        other => panic!("unexpected request: {:?}", other),
    }
    assert!(matches!(handle_config("list", None, None), ConfigRequest::List));
    assert!(matches!(
        handle_config("list", Some("ignored".to_string()), Some("too".to_string())),
        ConfigRequest::List
    ));
    assert!(matches!(handle_config("reset", None, None), ConfigRequest::Reset));
}

#[test]
fn incomplete_or_unknown_configuration_commands_ask_for_nothing() {
    assert!(matches!(
        handle_config("get", None, Some("v".to_string())),
        ConfigRequest::KeyRequired
    ));
    assert!(matches!(
        handle_config("set", Some("k".to_string()), None),
        ConfigRequest::KeyAndValueRequired
    ));
    assert!(matches!(
        handle_config("set", None, Some("v".to_string())),
        ConfigRequest::KeyAndValueRequired
    ));
    assert!(matches!(handle_config("set", None, None), ConfigRequest::KeyAndValueRequired));
    assert!(matches!(handle_config("delete", None, None), ConfigRequest::UnknownAction));
    assert!(matches!(handle_config("bogus", None, None), ConfigRequest::UnknownAction));
    assert!(matches!(handle_config("GET", None, None), ConfigRequest::UnknownAction));
    assert!(matches!(handle_config("", None, None), ConfigRequest::UnknownAction));
}
