use vstd::prelude::*;

verus! {

/// Marker for the configuration source that reads the process environment.
/// Reading the environment is the application shell's concern; it parses
/// what it finds with [`crate::config::models::LogLevel::try_from`] and
/// hands back a [`crate::config::models::PartialConfig`].
#[derive(Debug)]
pub struct EnvConfigLoader;

} // verus!
