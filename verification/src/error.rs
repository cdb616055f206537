//! Error type shared by the image-buffer descriptors: a codec error code
//! plus an optional human-readable detail string.

use vstd::prelude::*;

verus! {

/// Codec error codes.
#[derive(Clone, Copy, Debug, PartialEq, Eq, Structural)]
pub enum ErrorCode {
    /// Generic codec failure.
    CodecError,
    /// Failure with no more specific code.
    UnknownError,
    /// An argument was rejected; in the probe path this also stands for "not
    /// a gain-map JPEG".
    InvalidParam,
    /// An allocation failed.
    MemError,
    /// The requested feature is not available.
    UnsupportedFeature,
}

/// Error produced by the image-buffer descriptors and probe classification.
#[derive(Clone, Debug)]
pub struct Error {
    /// The error code.
    pub code: ErrorCode,
    /// Optional human-readable detail.
    pub detail: Option<String>,
}

impl Error {
    /// An allocation failure.
    pub fn alloc_failed() -> (r: Error)
        ensures
            r.code == ErrorCode::MemError,
            r.detail is Some,
    {
        Error { code: ErrorCode::MemError, detail: Some("allocation failed".to_owned()) }
    }

    /// An invalid-parameter failure carrying `msg`.
    pub fn invalid_param(msg: &str) -> (r: Error)
        ensures
            r.code == ErrorCode::InvalidParam,
            r.detail matches Some(d) && d@ == msg@,
    {
        Error { code: ErrorCode::InvalidParam, detail: Some(msg.to_owned()) }
    }
}

} // verus!
