use vstd::prelude::*;

verus! {

/// Failure to assemble a complete configuration from the merged partial
/// configurations.
#[derive(Debug)]
pub enum ConfigLoadError {
    MissingProperty(&'static str),
}

impl ConfigLoadError {
    /// Human-readable description of the failure.
    pub fn message(&self) -> (r: String)
        ensures
            self matches ConfigLoadError::MissingProperty(p) ==> r@ == "Missing property: "@
                + p@,
    {
        match self {
            ConfigLoadError::MissingProperty(p) => String::from_str("Missing property: ").concat(
                p,
            ),
        }
    }
}

/// Failure of one configuration source to parse a property.
#[derive(Debug)]
pub enum PartialConfigLoadError {
    UnsupportedLogLevel(String),
}

impl PartialConfigLoadError {
    /// Human-readable description of the failure.
    pub fn message(&self) -> (r: String)
        ensures
            self matches PartialConfigLoadError::UnsupportedLogLevel(l) ==> r@
                == "Unsupported log level: "@ + l@,
    {
        match self {
            PartialConfigLoadError::UnsupportedLogLevel(l) => String::from_str(
                "Unsupported log level: ",
            ).concat(l.as_str()),
        }
    }
}

} // verus!
