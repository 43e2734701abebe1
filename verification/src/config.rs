//! Agent configuration. The surrounding program loads and validates the
//! configuration file and hands these plain values over; the built-in
//! defaults live here so that what the agent runs with is pinned down.

use vstd::prelude::*;

verus! {

/// How often to collect and what to include.
pub struct CollectionConfig {
    pub interval_seconds: u64,
    pub include_services: bool,
    pub include_software: bool,
}

/// Where and whether snapshots are written locally.
pub struct OutputConfig {
    pub output_directory: String,
    pub save_to_file: bool,
    pub timestamp_format: String,
}

/// Logging destination and level.
pub struct LoggingConfig {
    pub level: String,
    pub console: bool,
    pub file: bool,
    pub log_directory: String,
}

/// The agent's own identity.
pub struct AgentConfig {
    pub agent_id: String,
    pub agent_name: String,
}

/// Retry limits for the collect-and-deliver cycle.
pub struct RetryConfig {
    pub max_retries: u32,
    pub initial_delay_ms: u64,
    pub max_delay_ms: u64,
}

/// The backend to deliver to; delivery is skipped entirely when disabled.
pub struct ServerConfig {
    pub enabled: bool,
    pub url: String,
    pub timeout_seconds: u64,
}

/// The agent's full configuration.
pub struct Config {
    pub collection: CollectionConfig,
    pub output: OutputConfig,
    pub logging: LoggingConfig,
    pub agent: AgentConfig,
    pub retry: RetryConfig,
    pub server: ServerConfig,
}

impl Config {
    /// The built-in defaults, used when no configuration file can be read:
    /// collect every five minutes, save snapshots under `./data`, log at
    /// `info` to console and `./logs`, retry five times from one second up
    /// to one minute, and leave backend delivery off until configured.
    pub fn default() -> (r: Config)
        ensures
            r.collection.interval_seconds == 300,
            r.collection.include_services,
            r.collection.include_software,
            r.output.output_directory@ == "./data"@,
            r.output.save_to_file,
            r.output.timestamp_format@ == "%Y%m%d_%H%M%S"@,
            r.logging.level@ == "info"@,
            r.logging.console,
            r.logging.file,
            r.logging.log_directory@ == "./logs"@,
            r.agent.agent_id@ == "agent-001"@,
            r.agent.agent_name@ == "Device Agent"@,
            r.retry.max_retries == 5,
            r.retry.initial_delay_ms == 1000,
            r.retry.max_delay_ms == 60000,
            !r.server.enabled,
            r.server.url@ == ""@,
            r.server.timeout_seconds == 30,
    {
        Config {
            collection: CollectionConfig {
                interval_seconds: 300,
                include_services: true,
                include_software: true,
            },
            output: OutputConfig {
                output_directory: String::from_str("./data"),
                save_to_file: true,
                timestamp_format: String::from_str("%Y%m%d_%H%M%S"),
            },
            logging: LoggingConfig {
                level: String::from_str("info"),
                console: true,
                file: true,
                log_directory: String::from_str("./logs"),
            },
            agent: AgentConfig {
                agent_id: String::from_str("agent-001"),
                agent_name: String::from_str("Device Agent"),
            },
            retry: RetryConfig { max_retries: 5, initial_delay_ms: 1000, max_delay_ms: 60000 },
            server: ServerConfig {
                enabled: false,
                url: String::from_str(""),
                timeout_seconds: 30,
            },
        }
    }
}

} // verus!
