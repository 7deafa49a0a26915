//! The settings that the pipeline is started with, and their validation.

use vstd::prelude::*;
use vstd::string::*;
use crate::text::same_text;

verus! {

/// How the samplers run.
#[derive(Debug, Clone)]
pub struct MonitoringConfig {
    pub interval_ms: u64,
    pub precision: String,
    pub buffer_size: usize,
    pub enabled_components: Vec<String>,
}

/// How the dashboard is served.
#[derive(Debug, Clone)]
pub struct DashboardConfig {
    pub port: u16,
    pub auto_refresh_ms: u64,
    pub theme: String,
    pub enable_websocket: bool,
}

/// Where and how long events are kept.
#[derive(Debug, Clone)]
pub struct StorageConfig {
    pub database_path: String,
    pub retention_days: u32,
    pub archive_threshold: u64,
    pub compression_enabled: bool,
}

/// Which integrations are switched on.
#[derive(Debug, Clone, Copy, PartialEq, Eq, Structural)]
pub struct IntegrationsConfig {
    pub wall_notification_system: bool,
    pub enhanced_logging: bool,
    pub copilot_tracking: bool,
    pub export_prometheus: bool,
}

/// All settings.
#[derive(Debug, Clone)]
pub struct Config {
    pub monitoring: MonitoringConfig,
    pub dashboard: DashboardConfig,
    pub storage: StorageConfig,
    pub integrations: IntegrationsConfig,
}

/// What is wrong with a configuration.
#[derive(Debug, Clone, Copy, PartialEq, Eq, Structural)]
pub enum ConfigError {
    ZeroInterval,
    ZeroBufferSize,
    PrivilegedPort,
    ZeroRetention,
}

impl ConfigError {
    /// The fault in words.
    pub open spec fn message_text(self) -> Seq<char> {
        match self {
            ConfigError::ZeroInterval => "Monitoring interval must be greater than 0"@,
            ConfigError::ZeroBufferSize => "Buffer size must be greater than 0"@,
            ConfigError::PrivilegedPort => "Dashboard port should be >= 1024"@,
            ConfigError::ZeroRetention => "Retention days must be greater than 0"@,
        }
    }

    /// The error in words.
    pub fn message(&self) -> (text: String)
        ensures
            text@ == self.message_text(),
    {
        match self {
            ConfigError::ZeroInterval => String::from_str(
                "Monitoring interval must be greater than 0",
            ),
            ConfigError::ZeroBufferSize => String::from_str("Buffer size must be greater than 0"),
            ConfigError::PrivilegedPort => String::from_str("Dashboard port should be >= 1024"),
            ConfigError::ZeroRetention => String::from_str("Retention days must be greater than 0"),
        }
    }
}

/// The lowest port that a dashboard may be served on.
pub const MIN_DASHBOARD_PORT: u16 = 1024;

/// The first fault of a configuration, in the order in which the settings
/// are examined: interval, buffer size, port, retention.
pub open spec fn first_fault(config: Config) -> Option<ConfigError> {
    if config.monitoring.interval_ms == 0 {
        Some(ConfigError::ZeroInterval)
    } else if config.monitoring.buffer_size == 0 {
        Some(ConfigError::ZeroBufferSize)
    } else if config.dashboard.port < MIN_DASHBOARD_PORT {
        Some(ConfigError::PrivilegedPort)
    } else if config.storage.retention_days == 0 {
        Some(ConfigError::ZeroRetention)
    } else {
        None
    }
}

/// Whether every setting but the database path has its default value.
pub open spec fn has_defaults(config: Config) -> bool {
    &&& config.monitoring.interval_ms == 100
    &&& config.monitoring.precision@ == "microsecond"@
    &&& config.monitoring.buffer_size == 10000
    &&& config.monitoring.enabled_components.len() == 3
    &&& config.monitoring.enabled_components[0]@ == "vscode"@
    &&& config.monitoring.enabled_components[1]@ == "models"@
    &&& config.monitoring.enabled_components[2]@ == "terminal"@
    &&& config.dashboard.port == 3030
    &&& config.dashboard.auto_refresh_ms == 1000
    &&& config.dashboard.theme@ == "dark"@
    &&& config.dashboard.enable_websocket
    &&& config.storage.retention_days == 30
    &&& config.storage.archive_threshold == 100000
    &&& config.storage.compression_enabled
    &&& config.integrations == (IntegrationsConfig {
        wall_notification_system: true,
        enhanced_logging: true,
        copilot_tracking: true,
        export_prometheus: false,
    })
}

/// `dirs::home_dir`, with the path put into a string. Nothing is claimed
/// of the result: it is read from the environment.
#[verifier::external_body]
fn home_directory() -> (home: Option<String>) {
    dirs::home_dir().map(|path| path.to_string_lossy().into_owned())
}

/// `std::path::Path::join`, with the path put into a string. Nothing is
/// claimed of the result: how paths are joined differs between platforms.
#[verifier::external_body]
fn path_under(base: &str, relative: &str) -> (joined: String) {
    std::path::Path::new(base).join(relative).to_string_lossy().into_owned()
}

impl Config {
    /// The default settings with the events kept at `database_path`.
    pub fn with_database_path(database_path: String) -> (config: Config)
        ensures
            has_defaults(config),
            config.storage.database_path == database_path,
            first_fault(config) is None,
    {
        let mut components: Vec<String> = Vec::new();
        components.push(String::from_str("vscode"));
        components.push(String::from_str("models"));
        components.push(String::from_str("terminal"));
        Config {
            monitoring: MonitoringConfig {
                interval_ms: 100,
                precision: String::from_str("microsecond"),
                buffer_size: 10000,
                enabled_components: components,
            },
            dashboard: DashboardConfig {
                port: 3030,
                auto_refresh_ms: 1000,
                theme: String::from_str("dark"),
                enable_websocket: true,
            },
            storage: StorageConfig {
                database_path,
                retention_days: 30,
                archive_threshold: 100000,
                compression_enabled: true,
            },
            integrations: IntegrationsConfig {
                wall_notification_system: true,
                enhanced_logging: true,
                copilot_tracking: true,
                export_prometheus: false,
            },
        }
    }

    /// Checks the settings and reports the first fault.
    pub fn validate(&self) -> (checked: Result<(), ConfigError>)
        ensures
            match checked {
                Ok(_) => first_fault(*self) is None,
                Err(fault) => first_fault(*self) == Some(fault),
            },
    {
        if self.monitoring.interval_ms == 0 {
            return Err(ConfigError::ZeroInterval);
        }
        if self.monitoring.buffer_size == 0 {
            return Err(ConfigError::ZeroBufferSize);
        }
        if self.dashboard.port < MIN_DASHBOARD_PORT {
            return Err(ConfigError::PrivilegedPort);
        }
        if self.storage.retention_days == 0 {
            return Err(ConfigError::ZeroRetention);
        }
        Ok(())
    }
}

impl Default for Config {
    /// The default settings, with the events kept under the user's home
    /// directory, or under the current directory where there is none.
    fn default() -> (config: Config)
        ensures
            has_defaults(config),
            first_fault(config) is None,
    {
        let home = match home_directory() {
            Some(path) => path,
            None => String::from_str("."),
        };
        let database_path = path_under(
            home.as_str(),
            ".local/share/vscode-latency-monitor/metrics.db",
        );
        Config::with_database_path(database_path)
    }
}

/// What a configuration command asks for, or what is wrong with it.
#[derive(Debug, Clone)]
pub enum ConfigRequest {
    /// Show the value of a key.
    Show { key: String },
    /// Give a key a value.
    Assign { key: String, value: String },
    /// Show all values.
    List,
    /// Go back to the defaults.
    Reset,
    /// `get` came without a key: nothing is asked for.
    KeyRequired,
    /// `set` came without a key or without a value: nothing is asked for.
    KeyAndValueRequired,
    /// The action is none of `get`, `set`, `list` and `reset`: nothing is
    /// asked for.
    UnknownAction,
}

/// Reads a configuration command: the action with the key and value that
/// came with it. `get` needs a key, `set` a key and a value; `list` and
/// `reset` take none and ignore what came. A command that lacks what it
/// needs, or names no known action, is no failure: it reads as a request
/// that asks for nothing and says why. No setting is changed.
pub fn handle_config(action: &str, key: Option<String>, value: Option<String>) -> (request:
    ConfigRequest)
    ensures
        match request {
            ConfigRequest::Show { key: k } => action@ == "get"@ && key == Some(k),
            ConfigRequest::Assign { key: k, value: v } => action@ != "get"@ && action@ == "set"@
                && key == Some(k) && value == Some(v),
            ConfigRequest::List => action@ != "get"@ && action@ != "set"@ && action@ == "list"@,
            ConfigRequest::Reset => action@ != "get"@ && action@ != "set"@ && action@ != "list"@
                && action@ == "reset"@,
            ConfigRequest::KeyRequired => action@ == "get"@ && key is None,
            ConfigRequest::KeyAndValueRequired => action@ != "get"@ && action@ == "set"@ && (key
                is None || value is None),
            ConfigRequest::UnknownAction => action@ != "get"@ && action@ != "set"@ && action@
                != "list"@ && action@ != "reset"@,
        },
{
    if same_text(action, "get") {
        match key {
            Some(key) => ConfigRequest::Show { key },
            None => ConfigRequest::KeyRequired,
        }
    } else if same_text(action, "set") {
        match key {
            Some(key) => match value {
                Some(value) => ConfigRequest::Assign { key, value },
                None => ConfigRequest::KeyAndValueRequired,
            },
            None => ConfigRequest::KeyAndValueRequired,
        }
    } else if same_text(action, "list") {
        ConfigRequest::List
    } else if same_text(action, "reset") {
        ConfigRequest::Reset
    } else {
        ConfigRequest::UnknownAction
    }
}

} // verus!
