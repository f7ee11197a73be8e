use vstd::prelude::*;

verus! {

/// Verbosity of the activity log.
#[derive(Debug, Clone, Copy, PartialEq, Eq, Structural)]
pub enum LogLevel {
    Off,
    Error,
    Warn,
    Info,
    Debug,
    Trace,
}

/// The proxy's configuration, loaded once at start and read-only afterwards.
#[derive(Debug, Clone)]
pub struct Config {
    pub version: String,
    /// The port to listen on.
    pub port: u16,
    /// The host to bind; `0.0.0.0` exposes the proxy publicly.
    pub host: String,
    /// Base URL of the upstream API (e.g. `https://api.openai.com/v1`).
    pub base_url: String,
    /// Upstream credentials, in rotation order.
    pub api_keys: Vec<String>,
    /// Access keys that callers may present; empty disables the access guard.
    pub access_keys: Vec<String>,
    pub log_level: Option<LogLevel>,
    pub acivity_logging_path: Option<String>,
}

} // verus!
