//! Error type shared by every parsing, conversion, formatting, security and
//! encoding operation of this crate.
use vstd::prelude::*;

verus! {

/// Path error type: each variant carries a human-readable detail string.
#[derive(Debug, Clone, PartialEq, Eq)]
pub enum PathError {
    /// Invalid path
    InvalidPath(String),
    /// Encoding error
    EncodingError(String),
    /// Security error
    SecurityError(String),
    /// Platform-specific error
    PlatformError(String),
    /// Path normalization error
    NormalizationError(String),
    /// Path parsing error
    ParseError(String),
    /// IO error
    IoError(String),
    /// Unsupported path format
    UnsupportedFormat(String),
    /// Drive mapping error
    DriveMappingError(String),
}

impl PathError {
    /// Create a new `InvalidPath` error.
    pub fn invalid_path(msg: &str) -> (r: Self)
        ensures
            r matches PathError::InvalidPath(m) && m@ == msg@,
    {
        PathError::InvalidPath(msg.to_owned())
    }

    /// Create a new `EncodingError`.
    pub fn encoding_error(msg: &str) -> (r: Self)
        ensures
            r matches PathError::EncodingError(m) && m@ == msg@,
    {
        PathError::EncodingError(msg.to_owned())
    }

    /// Create a new `SecurityError`.
    pub fn security_error(msg: &str) -> (r: Self)
        ensures
            r matches PathError::SecurityError(m) && m@ == msg@,
    {
        PathError::SecurityError(msg.to_owned())
    }

    /// Create a new `PlatformError`.
    pub fn platform_error(msg: &str) -> (r: Self)
        ensures
            r matches PathError::PlatformError(m) && m@ == msg@,
    {
        PathError::PlatformError(msg.to_owned())
    }
}

} // verus!
