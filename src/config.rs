//! The service's configuration and the decoding of its logging settings.

use vstd::prelude::*;

use crate::text::str_equal;

verus! {

/// The whole configuration file.
#[derive(Debug)]
pub struct TomlConfig {
    pub http: HttpConfig,
    pub database: DatabaseConfig,
    pub log: LogConfig,
    pub trace: TraceConfig,
}

/// Where the HTTP server listens.
#[derive(Debug)]
pub struct HttpConfig {
    pub host: String,
    pub port: u16,
}

/// How to reach the database.
#[derive(Debug)]
pub struct DatabaseConfig {
    pub name: String,
    pub host: String,
    pub port: u16,
    pub user: String,
    pub password: String,
}

/// Where log files go.
#[derive(Debug)]
pub struct LogConfig {
    pub directory: String,
    pub file_name_prefix: String,
}

/// The two tracing sinks.
#[derive(Debug)]
pub struct TraceConfig {
    pub rolling_file: RollingFileConfig,
    pub console: ConsoleConfig,
}

/// The tracing sink that writes to a rolling file.
#[derive(Debug)]
pub struct RollingFileConfig {
    pub directory: String,
    pub file_name_prefix: String,
    pub rotation: String,
    pub app_only: bool,
    pub with_max_level: String,
    pub with_file: bool,
    pub with_line_number: bool,
    pub with_target: bool,
}

/// The tracing sink that writes to the console.
#[derive(Debug)]
pub struct ConsoleConfig {
    pub app_only: bool,
    pub with_max_level: String,
    pub with_file: bool,
    pub with_line_number: bool,
    pub with_target: bool,
}

/// The most verbose level a tracing sink records.
#[derive(Debug, Clone, Copy, PartialEq, Eq)]
pub enum LogLevel {
    Trace,
    Debug,
    Info,
    Warn,
    Error,
}

/// How often the rolling file starts a new file.
#[derive(Debug, Clone, Copy, PartialEq, Eq)]
pub enum Rotation {
    Minutely,
    Hourly,
    Daily,
    Never,
}

/// The level a setting names; any other text means `Error`.
pub open spec fn level_of(value: Seq<char>) -> LogLevel {
    if value == "TRACE"@ {
        LogLevel::Trace
    } else if value == "DEBUG"@ {
        LogLevel::Debug
    } else if value == "INFO"@ {
        LogLevel::Info
    } else if value == "WARN"@ {
        LogLevel::Warn
    } else {
        LogLevel::Error
    }
}

/// The rotation a setting names; any other text means `Daily`.
pub open spec fn rotation_of(value: Seq<char>) -> Rotation {
    if value == "MINUTELY"@ {
        Rotation::Minutely
    } else if value == "HOURLY"@ {
        Rotation::Hourly
    } else if value == "NEVER"@ {
        Rotation::Never
    } else {
        Rotation::Daily
    }
}

/// The level named by a setting.
pub fn level_from(value: &String) -> (r: LogLevel)
    ensures
        r == level_of(value@),
{
    let v = value.as_str();
    if str_equal(v, "TRACE") {
        LogLevel::Trace
    } else if str_equal(v, "DEBUG") {
        LogLevel::Debug
    } else if str_equal(v, "INFO") {
        LogLevel::Info
    } else if str_equal(v, "WARN") {
        LogLevel::Warn
    } else {
        LogLevel::Error
    }
}

/// The rotation named by a setting.
pub fn rotation_from(value: &String) -> (r: Rotation)
    ensures
        r == rotation_of(value@),
{
    let v = value.as_str();
    if str_equal(v, "MINUTELY") {
        Rotation::Minutely
    } else if str_equal(v, "HOURLY") {
        Rotation::Hourly
    } else if str_equal(v, "NEVER") {
        Rotation::Never
    } else {
        Rotation::Daily
    }
}

impl RollingFileConfig {
    /// The most verbose level the file records.
    pub fn max_level(&self) -> (r: LogLevel)
        ensures
            r == level_of(self.with_max_level@),
    {
        level_from(&self.with_max_level)
    }

    /// How often the file rolls over.
    pub fn rotation_kind(&self) -> (r: Rotation)
        ensures
            r == rotation_of(self.rotation@),
    {
        rotation_from(&self.rotation)
    }
}

impl ConsoleConfig {
    /// The most verbose level the console records.
    pub fn max_level(&self) -> (r: LogLevel)
        ensures
            r == level_of(self.with_max_level@),
    {
        level_from(&self.with_max_level)
    }
}

} // verus!
