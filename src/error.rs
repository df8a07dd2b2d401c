//! Failures of a download.

use vstd::prelude::*;
use vstd::string::StringExecFns;

use crate::text::{decimal, push_decimal};

verus! {

/// Errors that can occur during a download. The strings are details for
/// diagnostics only.
#[derive(Debug, Clone, PartialEq, Eq)]
pub enum DownloadError {
    /// Transport failure: name lookup, connection, TLS, a broken stream.
    NetworkError(String),
    /// A response whose status is not accepted, with its raw code.
    HttpError(u16),
    /// Local file failure: create, open, seek, write, flush.
    FileError(String),
    /// A malformed URL, rejected before any request.
    InvalidUrl(String),
    /// The probe succeeded but gave no total size.
    MissingContentLength,
    /// A full `200` answer to a ranged request that resumes inside its range.
    UnexpectedFullResponse,
    /// A range task that died without returning, or a count that overflowed.
    Internal(String),
}

/// Text of an error, as `message` builds it.
pub open spec fn error_text(e: DownloadError) -> Seq<char> {
    match e {
        DownloadError::NetworkError(m) => "Network error: "@ + m@,
        DownloadError::HttpError(code) => "HTTP error: "@ + decimal(code as nat),
        DownloadError::FileError(m) => "File error: "@ + m@,
        DownloadError::InvalidUrl(m) => "Invalid URL: "@ + m@,
        DownloadError::MissingContentLength => "Missing content length"@,
        DownloadError::UnexpectedFullResponse => "Full response to a resuming range request"@,
        DownloadError::Internal(m) => "Internal error: "@ + m@,
    }
}

impl DownloadError {
    /// Human-readable description of the error.
    pub fn message(&self) -> (r: String)
        ensures
            r@ == error_text(*self),
    {
        match self {
            DownloadError::NetworkError(m) => String::from_str("Network error: ").concat(
                m.as_str(),
            ),
            DownloadError::HttpError(code) => {
                let mut s = String::from_str("HTTP error: ");
                push_decimal(&mut s, *code as u64);
                s
            },
            DownloadError::FileError(m) => String::from_str("File error: ").concat(m.as_str()),
            DownloadError::InvalidUrl(m) => String::from_str("Invalid URL: ").concat(m.as_str()),
            DownloadError::MissingContentLength => String::from_str("Missing content length"),
            DownloadError::UnexpectedFullResponse => String::from_str(
                "Full response to a resuming range request",
            ),
            DownloadError::Internal(m) => String::from_str("Internal error: ").concat(m.as_str()),
        }
    }
}

} // verus!
