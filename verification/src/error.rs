//! The errors that the cleaner reports.

use vstd::prelude::*;

verus! {

/// Why an operation failed.
#[derive(Debug)]
pub enum CleanError {
    /// The path does not exist or cannot be resolved.
    PathNotFound(String),
    /// The path may not be touched by this user.
    PermissionDenied(String),
    /// The file is locked or in use.
    FileInUse(String),
    /// The match specification is malformed or empty.
    ConfigParseError(String),
    /// The safety validator refused the target.
    SafetyRejected(String),
    /// The user aborted the run.
    Cancelled,
    /// Anything else.
    Other(String),
}

/// How the operating system classed an input/output failure.
#[derive(Debug, Clone, Copy)]
pub enum IoFailure {
    NotFound,
    PermissionDenied,
    Other,
}

impl CleanError {
    /// The human-readable text of the error.
    pub open spec fn text(self) -> Seq<char> {
        match self {
            CleanError::PathNotFound(path) => "Path not found: "@ + path@,
            CleanError::PermissionDenied(path) => "Permission denied: "@ + path@,
            CleanError::FileInUse(path) => "File in use: "@ + path@,
            CleanError::ConfigParseError(detail) => "Config parse error: "@ + detail@,
            CleanError::SafetyRejected(detail) => "Safety check failed: "@ + detail@,
            CleanError::Cancelled => "Operation cancelled by user"@,
            CleanError::Other(detail) => "Other error: "@ + detail@,
        }
    }

    /// Renders the error as text.
    pub fn message(&self) -> (s: String)
        ensures
            s@ == self.text(),
    {
        match self {
            CleanError::PathNotFound(path) => "Path not found: ".to_owned().concat(path.as_str()),
            CleanError::PermissionDenied(path) => "Permission denied: ".to_owned().concat(
                path.as_str(),
            ),
            CleanError::FileInUse(path) => "File in use: ".to_owned().concat(path.as_str()),
            CleanError::ConfigParseError(detail) => "Config parse error: ".to_owned().concat(
                detail.as_str(),
            ),
            CleanError::SafetyRejected(detail) => "Safety check failed: ".to_owned().concat(
                detail.as_str(),
            ),
            CleanError::Cancelled => "Operation cancelled by user".to_owned(),
            CleanError::Other(detail) => "Other error: ".to_owned().concat(detail.as_str()),
        }
    }

    /// The error that stands for an input/output failure: a missing path and
    /// a refused permission keep their class and carry no path, anything
    /// else keeps its description.
    pub fn from_io(kind: IoFailure, detail: String) -> (e: CleanError)
        ensures
            kind is NotFound ==> (e matches CleanError::PathNotFound(p) && p@.len() == 0),
            kind is PermissionDenied ==> (e matches CleanError::PermissionDenied(p) && p@.len()
                == 0),
            kind is Other ==> e == CleanError::Other(detail),
    {
        match kind {
            IoFailure::NotFound => CleanError::PathNotFound(String::new()),
            IoFailure::PermissionDenied => CleanError::PermissionDenied(String::new()),
            IoFailure::Other => CleanError::Other(detail),
        }
    }
}

} // verus!
