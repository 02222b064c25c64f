//! Error taxonomy for the release-upload pipeline.
//!
//! Pre-flight problems (missing token, unreadable remote) are fatal and
//! surface as [`ConfigurationError`] before any upload is attempted.
//! Per-file problems during an upload are never fatal to the batch: they are
//! carried as an [`UploadError`] inside a failure outcome and aggregated.

use vstd::prelude::*;

verus! {

/// A fatal problem detected before any upload starts.
#[derive(Clone, Copy, Debug, PartialEq, Eq, Structural)]
pub enum ConfigurationError {
    /// No API token was supplied, neither as a flag nor in the environment.
    MissingToken,
    /// The configured remote URL does not contain owner and repository segments.
    UnreadableRemote,
}

impl ConfigurationError {
    /// A human-readable description of the problem, for the caller to print.
    pub fn message(&self) -> (r: &'static str)
        ensures
            *self == ConfigurationError::MissingToken ==> r@ == "GITHUB_TOKEN is not set"@,
            *self == ConfigurationError::UnreadableRemote ==> r@ == "Reading of origin url failed"@,
    {
        match self {
            ConfigurationError::MissingToken => "GITHUB_TOKEN is not set",
            ConfigurationError::UnreadableRemote => "Reading of origin url failed",
        }
    }
}

/// Why a single asset upload failed. One file's failure never aborts the
/// uploads of its siblings; the error is recorded in the aggregate instead.
#[derive(Debug, PartialEq, Eq)]
pub enum UploadError {
    /// A transport-level fault: connection, DNS, or timeout.
    Network(String),
    /// The upload endpoint answered with a status other than 201 (Created);
    /// the payload is the raw response body.
    RemoteRejection(String),
    /// The file vanished or became unreadable between discovery and upload.
    Filesystem(String),
}

impl UploadError {
    /// The detail text carried by this error, whatever its kind.
    pub fn detail(&self) -> (r: &String)
        ensures
            r@ == self.detail_chars(),
    {
        match self {
            UploadError::Network(d) => d,
            UploadError::RemoteRejection(d) => d,
            UploadError::Filesystem(d) => d,
        }
    }

    /// The detail text of an error, as a sequence of characters.
    pub open spec fn detail_chars(&self) -> Seq<char> {
        match self {
            UploadError::Network(d) => d@,
            UploadError::RemoteRejection(d) => d@,
            UploadError::Filesystem(d) => d@,
        }
    }
}

} // verus!
