//! The recognized configuration options and the reading of the log level.
//! Loading and writing the configuration file happens outside the
//! library; this module holds the plain settings.

use vstd::prelude::*;

verus! {

/// Settings shared by the server, the workers and the clients.
pub struct Config {
    /// One of trace, debug, info, warn, error (any casing); anything else
    /// falls back to info.
    pub log_level: String,
    pub server_bind_address: String,
    pub server_address: String,
    pub server_port: u16,
    pub shared_secret: String,
    pub restart_workers: RestartWorkers,
}

/// Settings of the auxiliary tool that restarts dead workers over SSH.
pub struct RestartWorkers {
    pub ssh_user: String,
    /// Space-separated host names.
    pub hostnames: String,
    pub sleep_minutes_before_recheck: u64,
}

/// The log levels the configuration can ask for.
#[derive(Clone, Copy, Debug, PartialEq, Eq, Structural)]
pub enum LogLevel {
    Trace,
    Debug,
    Info,
    Warn,
    Error,
}

/// The lowercase form of a string, as str::to_lowercase computes it: a
/// function of the characters alone.
pub uninterp spec fn lower_of(s: Seq<char>) -> Seq<char>;

/// Relies on str::to_lowercase: the result depends on the characters
/// alone.
#[verifier::external_body]
fn lowercase(s: &str) -> (r: String)
    ensures
        r@ == lower_of(s@),
{
    s.to_lowercase()
}

/// Which level a configured string names, compared case-insensitively;
/// unknown words mean Info.
pub open spec fn spec_level_of(lower: Seq<char>) -> LogLevel {
    if lower == "trace"@ {
        LogLevel::Trace
    } else if lower == "debug"@ {
        LogLevel::Debug
    } else if lower == "info"@ {
        LogLevel::Info
    } else if lower == "warn"@ {
        LogLevel::Warn
    } else if lower == "error"@ {
        LogLevel::Error
    } else {
        LogLevel::Info
    }
}

impl Config {
    /// The log level the configuration asks for, case-insensitively;
    /// unknown words fall back to Info.
    pub fn get_log_level(&self) -> (r: LogLevel)
        ensures
            r == spec_level_of(lower_of(self.log_level@)),
    {
        let lower = lowercase(self.log_level.as_str());
        if lower == "trace".to_owned() {
            LogLevel::Trace
        } else if lower == "debug".to_owned() {
            LogLevel::Debug
        } else if lower == "info".to_owned() {
            LogLevel::Info
        } else if lower == "warn".to_owned() {
            LogLevel::Warn
        } else if lower == "error".to_owned() {
            LogLevel::Error
        } else {
            LogLevel::Info
        }
    }
}

} // verus!
