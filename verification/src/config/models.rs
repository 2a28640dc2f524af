use vstd::prelude::*;

use crate::config::errors::ConfigLoadError;

verus! {

/// Where the HTTP layer should listen. A TCP address is carried as the
/// unparsed `host:port` text; turning raw input into one variant or the
/// other is the caller's concern.
#[derive(Debug)]
pub enum ApiBind {
    UnixSocket(String),
    Tcp(String),
}

impl Clone for ApiBind {
    fn clone(&self) -> (r: Self)
        ensures
            r == *self,
    {
        match self {
            ApiBind::UnixSocket(p) => ApiBind::UnixSocket(p.clone()),
            ApiBind::Tcp(a) => ApiBind::Tcp(a.clone()),
        }
    }
}

/// Verbosity of the process-wide logger.
#[derive(Clone, Copy, Debug, PartialEq, Eq, Structural)]
pub enum LogLevel {
    Trace,
    Debug,
    Info,
    Warn,
    Error,
}

/// A complete configuration: every property present.
#[derive(Debug)]
pub struct Config {
    pub log_level: LogLevel,
    pub api_bind: ApiBind,
    pub db_address: String,
}

/// What one configuration source could supply; any property may be absent.
#[derive(Debug)]
pub struct PartialConfig {
    pub log_level: Option<LogLevel>,
    pub api_bind: Option<ApiBind>,
    pub db_address: Option<String>,
}

impl Default for PartialConfig {
    fn default() -> (r: Self)
        ensures
            r.log_level is None,
            r.api_bind is None,
            r.db_address is None,
    {
        PartialConfig { log_level: None, api_bind: None, db_address: None }
    }
}

impl PartialConfig {
    /// Field-wise merge: keep this source's value, fall back to `other`'s.
    pub fn merge(self, other: PartialConfig) -> (r: PartialConfig)
        ensures
            r.log_level == if self.log_level is Some {
                self.log_level
            } else {
                other.log_level
            },
            r.api_bind == if self.api_bind is Some {
                self.api_bind
            } else {
                other.api_bind
            },
            r.db_address == if self.db_address is Some {
                self.db_address
            } else {
                other.db_address
            },
    {
        let log_level = match self.log_level {
            Some(v) => Some(v),
            None => other.log_level,
        };
        let api_bind = match self.api_bind {
            Some(v) => Some(v),
            None => other.api_bind,
        };
        let db_address = match self.db_address {
            Some(v) => Some(v),
            None => other.db_address,
        };
        PartialConfig { log_level, api_bind, db_address }
    }
}

impl Config {
    /// Completes a partial configuration, reporting the first missing
    /// property (log level, then bind address, then database address).
    pub fn try_from(partial_config: PartialConfig) -> (r: Result<Config, ConfigLoadError>)
        ensures
            r is Ok <==> partial_config.log_level is Some && partial_config.api_bind is Some
                && partial_config.db_address is Some,
            r matches Ok(c) ==> {
                &&& partial_config.log_level == Some(c.log_level)
                &&& partial_config.api_bind == Some(c.api_bind)
                &&& partial_config.db_address == Some(c.db_address)
            },
            partial_config.log_level is None ==> (r matches Err(
                ConfigLoadError::MissingProperty(p),
            ) && p@ == "log_level"@),
            partial_config.log_level is Some && partial_config.api_bind is None ==> (r matches Err(
                ConfigLoadError::MissingProperty(p),
            ) && p@ == "api_bind"@),
            partial_config.log_level is Some && partial_config.api_bind is Some
                && partial_config.db_address is None ==> (r matches Err(
                ConfigLoadError::MissingProperty(p),
            ) && p@ == "db_address"@),
    {
        let log_level = match partial_config.log_level {
            Some(v) => v,
            None => {
                return Err(ConfigLoadError::MissingProperty("log_level"));
            },
        };
        let api_bind = match partial_config.api_bind {
            Some(v) => v,
            None => {
                return Err(ConfigLoadError::MissingProperty("api_bind"));
            },
        };
        let db_address = match partial_config.db_address {
            Some(v) => v,
            None => {
                return Err(ConfigLoadError::MissingProperty("db_address"));
            },
        };
        Ok(Config { log_level, api_bind, db_address })
    }
}

} // verus!
