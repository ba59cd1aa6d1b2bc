//! Errors reported by logger construction and installation.

use vstd::prelude::*;

verus! {

/// An error returned by logger initialization or construction.
#[derive(Debug)]
pub enum Error {
    /// A logger was already installed as the process-wide logger.
    SetLogger,
    /// An i/o error occurred when opening a file logger's destination.
    FileLogger(String),
    /// An invalid timestamp format pattern was given.
    InvalidFormatString(String),
}

impl Error {
    /// A human-readable description of the error.
    pub fn message(&self) -> (r: String)
        ensures
            match self {
                Error::SetLogger => r@ == "logger already initialized"@,
                Error::FileLogger(m) => r@ == m@,
                Error::InvalidFormatString(m) => r@ == m@,
            },
    {
        match self {
            Error::SetLogger => String::from_str("logger already initialized"),
            Error::FileLogger(m) => m.clone(),
            Error::InvalidFormatString(m) => m.clone(),
        }
    }
}

} // verus!
