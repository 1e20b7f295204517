//! The settings file of the provider (`config.toml`): its sections, their defaults
//! and the ranges that a loaded file must respect.
use crate::text::{chars_equal, chars_of, lower_chars, lower_seq, string_from};
use vstd::prelude::*;

verus! {

/// Name of the settings file in the working directory.
pub const DEFAULT_CONFIG_FILE: &'static str = "config.toml";

/// The documented settings file that `config init` writes: every setting with its
/// default, its range and what it does.
pub const DOCUMENTED_TEMPLATE: &'static str = r#"# ==============================================================================
# OsuMemoryReading - Configuration File
# A high-performance native Rust memory reader and drop-in tosu replacement.
# ==============================================================================

[server]
# Network interface host address to bind to.
# Default: "127.0.0.1" (localhost)
# Use "0.0.0.0" to allow other devices on your local network to access the overlay.
host = "127.0.0.1"

# Listening port for tosu HTTP and WebSocket replacement.
# Default: 24050
# Range: 1024 to 65535
port = 24050

# Allow Cross-Origin Resource Sharing (CORS) from any origin.
# Necessary for browser-based stream overlays (OBS, Streamlabs, Chrome).
# Default: true
cors_allow_all = true

# Enable real-time WebSocket streaming on ws://<host>:<port>/websocket/v2
# Default: true
enable_websocket = true

# Enable HTTP REST endpoints on http://<host>:<port>/json/v2 and /health
# Default: true
enable_http = true


[poll]
# Polling update frequency in Hertz (updates per second).
# 60 Hz = ~16.6 ms per update
# 120 Hz = ~8.3 ms per update
# Default: 60
# Range: 1 to 1000 Hz
poll_rate_hz = 60

# Maximum memory scan search budget in Megabytes per osu! process.
# Default: 128 MB
# Range: 16 to 1024 MB
scan_budget_mb = 128

# Memory signature profile to load.
# Options: "tournament", "stable"
# Default: "tournament"
default_profile = "tournament"

# Automatically detect and switch between Single-Player Mode and Tournament Mode.
# Default: true
auto_mode = true


[features]
# Extract and parse multiplayer tournament chat logs from memory.
# Default: true
enable_chat = true

# Decode XOR-encrypted active mods in memory (HD, HR, DT, FL, AT, ScoreV2, etc.).
# Default: true
enable_mods_decryption = true

# Enable real-time PP calculation (requires 'pp' feature).
# Default: false
enable_pp = false


[logging]
# Logging verbosity level.
# Options: "trace", "debug", "info", "warn", "error"
# Default: "info"
# WARNING: "info" is recommended for regular production and tournament use.
# Setting this to "debug" or "trace" emits high-volume internal runtime logs
# which may increase CPU usage and impact high-frequency (60-120 Hz) poll timing.
level = "info"

# Save logs to daily files in the logs/ directory.
# Default: false
log_to_file = false

# Maximum number of daily log files to retain before pruning oldest.
# Default: 7
# Range: 1 to 365
max_log_files = 7
"#;

/// HTTP and WebSocket server settings.
#[derive(Debug, Clone)]
pub struct ServerConfig {
    /// Network interface address to bind to.
    pub host: String,
    /// Listening TCP port (default 24050, at least 1024).
    pub port: u16,
    /// Send `Access-Control-Allow-Origin: *` for browser overlays.
    pub cors_allow_all: bool,
    /// Serve the WebSocket stream on `/websocket/v2`.
    pub enable_websocket: bool,
    /// Serve the HTTP endpoints `/json/v2`, `/json` and `/health`.
    pub enable_http: bool,
}

/// Polling settings.
#[derive(Debug, Clone)]
pub struct PollConfig {
    /// Polling frequency in Hz (default 60, 1 to 1000).
    pub poll_rate_hz: u32,
    /// Memory signature scanning budget in MB (default 128, 16 to 1024).
    pub scan_budget_mb: usize,
    /// Memory pattern profile to load (`tournament` or `stable`).
    pub default_profile: String,
    /// Switch between tournament and single-player mode from the running processes.
    pub auto_mode: bool,
}

/// Optional features.
#[derive(Debug, Clone)]
pub struct FeatureConfig {
    /// Read and attribute the multiplayer tournament chat.
    pub enable_chat: bool,
    /// Decrypt the XOR-encrypted active mods.
    pub enable_mods_decryption: bool,
    /// Real-time performance point calculation.
    pub enable_pp: bool,
}

/// Logging settings.
#[derive(Debug, Clone)]
pub struct LoggingConfig {
    /// Verbosity: `trace`, `debug`, `info`, `warn` or `error`.
    pub level: String,
    /// Write daily log files to `logs/`.
    pub log_to_file: bool,
    /// Daily log files kept before the oldest are pruned (default 7, 1 to 365).
    pub max_log_files: usize,
}

/// The whole settings file.
#[derive(Debug, Clone)]
pub struct AppConfig {
    pub server: ServerConfig,
    pub poll: PollConfig,
    pub features: FeatureConfig,
    pub logging: LoggingConfig,
}

/// Why a settings file was refused, with the offending value.
#[derive(Debug, Clone, Copy, PartialEq, Eq)]
pub enum ConfigError {
    /// `server.port` is below 1024.
    PortTooLow(u16),
    /// `poll.poll_rate_hz` is outside 1 to 1000.
    PollRateOutOfRange(u32),
    /// `poll.scan_budget_mb` is outside 16 to 1024.
    ScanBudgetOutOfRange(usize),
    /// `logging.max_log_files` is outside 1 to 365.
    MaxLogFilesOutOfRange(usize),
    /// `logging.level` is not one of the five levels.
    UnknownLogLevel,
}

/// The server settings hold their defaults.
pub open spec fn is_default_server(c: ServerConfig) -> bool {
    &&& c.host@ == "127.0.0.1"@
    &&& c.port == 24050
    &&& c.cors_allow_all
    &&& c.enable_websocket
    &&& c.enable_http
}

/// The poll settings hold their defaults.
pub open spec fn is_default_poll(c: PollConfig) -> bool {
    &&& c.poll_rate_hz == 60
    &&& c.scan_budget_mb == 128
    &&& c.default_profile@ == "tournament"@
    &&& c.auto_mode
}

/// The feature settings hold their defaults.
pub open spec fn is_default_features(c: FeatureConfig) -> bool {
    &&& c.enable_chat
    &&& c.enable_mods_decryption
    &&& !c.enable_pp
}

/// The logging settings hold their defaults.
pub open spec fn is_default_logging(c: LoggingConfig) -> bool {
    &&& c.level@ == "info"@
    &&& !c.log_to_file
    &&& c.max_log_files == 7
}

/// Every section holds its defaults.
pub open spec fn is_default_config(c: AppConfig) -> bool {
    &&& is_default_server(c.server)
    &&& is_default_poll(c.poll)
    &&& is_default_features(c.features)
    &&& is_default_logging(c.logging)
}

impl Default for ServerConfig {
    fn default() -> (res: Self)
        ensures
            is_default_server(res),
    {
        ServerConfig {
            host: string_from("127.0.0.1"),
            port: 24050,
            cors_allow_all: true,
            enable_websocket: true,
            enable_http: true,
        }
    }
}

impl Default for PollConfig {
    fn default() -> (res: Self)
        ensures
            is_default_poll(res),
    {
        PollConfig {
            poll_rate_hz: 60,
            scan_budget_mb: 128,
            default_profile: string_from("tournament"),
            auto_mode: true,
        }
    }
}

impl Default for FeatureConfig {
    fn default() -> (res: Self)
        ensures
            is_default_features(res),
    {
        FeatureConfig {
            enable_chat: true,
            enable_mods_decryption: true,
            enable_pp: false,
        }
    }
}

impl Default for LoggingConfig {
    fn default() -> (res: Self)
        ensures
            is_default_logging(res),
    {
        LoggingConfig { level: string_from("info"), log_to_file: false, max_log_files: 7 }
    }
}

impl Default for AppConfig {
    fn default() -> (res: Self)
        ensures
            is_default_config(res),
    {
        AppConfig {
            server: ServerConfig::default(),
            poll: PollConfig::default(),
            features: FeatureConfig::default(),
            logging: LoggingConfig::default(),
        }
    }
}

/// `level` names one of the five logging levels, in any ASCII case.
pub open spec fn is_known_level(level: Seq<char>) -> bool {
    let l = lower_seq(level);
    l == "trace"@ || l == "debug"@ || l == "info"@ || l == "warn"@ || l == "error"@
}

/// What `AppConfig::validate` answers: the first range that the settings break.
pub open spec fn validate_spec(c: AppConfig) -> Result<(), ConfigError> {
    if c.server.port < 1024 {
        Err(ConfigError::PortTooLow(c.server.port))
    } else if c.poll.poll_rate_hz == 0 || c.poll.poll_rate_hz > 1000 {
        Err(ConfigError::PollRateOutOfRange(c.poll.poll_rate_hz))
    } else if c.poll.scan_budget_mb < 16 || c.poll.scan_budget_mb > 1024 {
        Err(ConfigError::ScanBudgetOutOfRange(c.poll.scan_budget_mb))
    } else if c.logging.max_log_files == 0 || c.logging.max_log_files > 365 {
        Err(ConfigError::MaxLogFilesOutOfRange(c.logging.max_log_files))
    } else if !is_known_level(c.logging.level@) {
        Err(ConfigError::UnknownLogLevel)
    } else {
        Ok(())
    }
}


impl AppConfig {
    /// Checks that every setting lies within its range, reporting the first that does not.
    pub fn validate(&self) -> (res: Result<(), ConfigError>)
        ensures
            res == validate_spec(*self),
    {
        if self.server.port < 1024 {
            return Err(ConfigError::PortTooLow(self.server.port));
        }
        if self.poll.poll_rate_hz == 0 || self.poll.poll_rate_hz > 1000 {
            return Err(ConfigError::PollRateOutOfRange(self.poll.poll_rate_hz));
        }
        if self.poll.scan_budget_mb < 16 || self.poll.scan_budget_mb > 1024 {
            return Err(ConfigError::ScanBudgetOutOfRange(self.poll.scan_budget_mb));
        }
        if self.logging.max_log_files == 0 || self.logging.max_log_files > 365 {
            return Err(ConfigError::MaxLogFilesOutOfRange(self.logging.max_log_files));
        }
        let level = lower_chars(chars_of(self.logging.level.as_str()).as_slice());
        let known = chars_equal(level.as_slice(), chars_of("trace").as_slice()) || chars_equal(
            level.as_slice(),
            chars_of("debug").as_slice(),
        ) || chars_equal(level.as_slice(), chars_of("info").as_slice()) || chars_equal(
            level.as_slice(),
            chars_of("warn").as_slice(),
        ) || chars_equal(level.as_slice(), chars_of("error").as_slice());
        if !known {
            return Err(ConfigError::UnknownLogLevel);
        }
        Ok(())
    }

    /// Poll interval in milliseconds for the configured rate: `1000 / poll_rate_hz`,
    /// at least 1, and 16 when the rate is 0.
    pub fn poll_interval_ms(&self) -> (res: u64)
        ensures
            self.poll.poll_rate_hz == 0 ==> res == 16,
            self.poll.poll_rate_hz > 0 ==> res == (if 1000int / (self.poll.poll_rate_hz as int) >= 1 {
                1000int / (self.poll.poll_rate_hz as int)
            } else {
                1
            }),
    {
        if self.poll.poll_rate_hz == 0 {
            16
        } else {
            let ms = 1000 / (self.poll.poll_rate_hz as u64);
            if ms >= 1 {
                ms
            } else {
                1
            }
        }
    }

    /// The documented template of the settings file.
    pub fn generate_documented_template() -> (res: &'static str)
        ensures
            res@ == DOCUMENTED_TEMPLATE@,
    {
        DOCUMENTED_TEMPLATE
    }
}

/// The default settings pass validation.
pub proof fn lemma_default_config_is_valid(c: AppConfig)
    requires
        is_default_config(c),
    ensures
        validate_spec(c) == Ok::<(), ConfigError>(()),
{
    reveal_strlit("info");
    assert(lower_seq("info"@) =~= "info"@);
}

} // verus!
