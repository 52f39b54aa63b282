//! Configuration errors.
use crate::text::copy_text;
use vstd::prelude::*;

verus! {

/// Errors related to configuration loading and parsing.
#[derive(Debug, PartialEq, Eq)]
pub enum ConfigError {
    /// An unsupported codec was specified.
    InvalidCodec(String),
    /// An invalid resolution string was provided.
    InvalidResolution(String),
    /// The config file exists but could not be parsed.
    ParseError {
        /// Path to the config file.
        path: String,
        /// Description of the parse error.
        reason: String,
    },
    /// The config file could not be read.
    ReadError {
        /// Path to the config file.
        path: String,
        /// Description of the read error.
        reason: String,
    },
    /// The config file could not be written.
    WriteError {
        /// Path to the config file.
        path: String,
        /// Description of the write error.
        reason: String,
    },
}

/// `<what> config file <path>: <reason>`.
pub open spec fn file_error_text(what: Seq<char>, path: Seq<char>, reason: Seq<char>) -> Seq<char> {
    what + " config file "@ + path + ": "@ + reason
}

fn file_error(what: &str, path: &str, reason: &str) -> (s: String)
    ensures
        s@ == file_error_text(what@, path@, reason@),
{
    let mut s = copy_text(what);
    s.append(" config file ");
    s.append(path);
    s.append(": ");
    s.append(reason);
    s
}

impl ConfigError {
    /// The message of the error.
    pub open spec fn text(&self) -> Seq<char> {
        match self {
            ConfigError::InvalidCodec(codec) => "Invalid codec: "@ + codec@
                + ". Supported: h265, av1"@,
            ConfigError::InvalidResolution(resolution) => "Invalid resolution: "@ + resolution@
                + ". Expected format: WIDTHxHEIGHT (e.g. 1920x1080)"@,
            ConfigError::ParseError { path, reason } => file_error_text(
                "Failed to parse"@,
                path@,
                reason@,
            ),
            ConfigError::ReadError { path, reason } => file_error_text(
                "Failed to read"@,
                path@,
                reason@,
            ),
            ConfigError::WriteError { path, reason } => file_error_text(
                "Failed to write"@,
                path@,
                reason@,
            ),
        }
    }

    /// The message of the error.
    pub fn to_string(&self) -> (s: String)
        ensures
            s@ == self.text(),
    {
        match self {
            ConfigError::InvalidCodec(codec) => {
                let mut s = copy_text("Invalid codec: ");
                s.append(codec.as_str());
                s.append(". Supported: h265, av1");
                s
            },
            ConfigError::InvalidResolution(resolution) => {
                let mut s = copy_text("Invalid resolution: ");
                s.append(resolution.as_str());
                s.append(". Expected format: WIDTHxHEIGHT (e.g. 1920x1080)");
                s
            },
            ConfigError::ParseError { path, reason } => file_error(
                "Failed to parse",
                path.as_str(),
                reason.as_str(),
            ),
            ConfigError::ReadError { path, reason } => file_error(
                "Failed to read",
                path.as_str(),
                reason.as_str(),
            ),
            ConfigError::WriteError { path, reason } => file_error(
                "Failed to write",
                path.as_str(),
                reason.as_str(),
            ),
        }
    }
}

} // verus!
