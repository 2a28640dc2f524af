use vstd::prelude::*;

use crate::config::errors::PartialConfigLoadError;
use crate::config::models::LogLevel;
use crate::text::str_eq;

verus! {

impl LogLevel {
    /// Parses a log-level name; exactly the five level names are accepted,
    /// anything else is reported back unchanged.
    pub fn try_from(log_level: &str) -> (r: Result<LogLevel, PartialConfigLoadError>)
        ensures
            r is Ok <==> (log_level@ == "trace"@ || log_level@ == "debug"@ || log_level@
                == "info"@ || log_level@ == "warn"@ || log_level@ == "error"@),
            log_level@ == "trace"@ ==> r == Ok::<LogLevel, PartialConfigLoadError>(
                LogLevel::Trace,
            ),
            log_level@ == "debug"@ ==> r == Ok::<LogLevel, PartialConfigLoadError>(
                LogLevel::Debug,
            ),
            log_level@ == "info"@ ==> r == Ok::<LogLevel, PartialConfigLoadError>(LogLevel::Info),
            log_level@ == "warn"@ ==> r == Ok::<LogLevel, PartialConfigLoadError>(LogLevel::Warn),
            log_level@ == "error"@ ==> r == Ok::<LogLevel, PartialConfigLoadError>(
                LogLevel::Error,
            ),
            !(log_level@ == "trace"@ || log_level@ == "debug"@ || log_level@ == "info"@
                || log_level@ == "warn"@ || log_level@ == "error"@) ==> (r matches Err(
                PartialConfigLoadError::UnsupportedLogLevel(s),
            ) && s@ == log_level@),
    {
        proof {
            reveal_strlit("trace");
            reveal_strlit("debug");
            reveal_strlit("info");
            reveal_strlit("warn");
            reveal_strlit("error");
            assert("trace"@[0] != "debug"@[0]);
            assert("trace"@[0] != "error"@[0]);
            assert("debug"@[0] != "error"@[0]);
            assert("info"@[0] != "warn"@[0]);
        }
        if str_eq(log_level, "trace") {
            Ok(LogLevel::Trace)
        } else if str_eq(log_level, "debug") {
            Ok(LogLevel::Debug)
        } else if str_eq(log_level, "info") {
            Ok(LogLevel::Info)
        } else if str_eq(log_level, "warn") {
            Ok(LogLevel::Warn)
        } else if str_eq(log_level, "error") {
            Ok(LogLevel::Error)
        } else {
            Err(PartialConfigLoadError::UnsupportedLogLevel(String::from_str(log_level)))
        }
    }
}

} // verus!
