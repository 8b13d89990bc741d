//! Failures of the translation service, and how the pipeline tells them apart.

use vstd::prelude::*;
use crate::text::str_eq;

verus! {

/// A failed call to the translation service.
#[derive(Debug, Clone)]
pub enum ServiceError {
    /// The service answered with an error code and message, for the request
    /// it names.
    Api { code: String, message: String, request_id: String },
    /// The service could not be reached, or its answer not read.
    Transport { message: String },
}

/// The classes of failure that the pipeline branches on.
#[derive(Debug, Clone, Copy, PartialEq, Eq, Structural)]
pub enum ErrorKind {
    /// Too many requests: retried, never surfaced.
    RateLimited,
    /// Detection could not recognise the language: absorbed by a fallback.
    LanguageRecognitionFailed,
    /// Anything else: fatal for the word at hand.
    Other,
}

/// The service's code for "rate limit exceeded".
pub open spec fn rate_limit_code() -> Seq<char> {
    "RequestLimitExceeded"@
}

/// The service's code for a failed language detection.
pub open spec fn recognition_failed_code() -> Seq<char> {
    "FailedOperation.LanguageRecognitionErr"@
}

/// The class of an error, read from its code.
pub open spec fn error_kind(e: ServiceError) -> ErrorKind {
    match e {
        ServiceError::Api { code, .. } => if code@ == rate_limit_code() {
            ErrorKind::RateLimited
        } else if code@ == recognition_failed_code() {
            ErrorKind::LanguageRecognitionFailed
        } else {
            ErrorKind::Other
        },
        ServiceError::Transport { .. } => ErrorKind::Other,
    }
}

impl ServiceError {
    /// Classifies this error by its code.
    pub fn kind(&self) -> (r: ErrorKind)
        ensures
            r == error_kind(*self),
    {
        match self {
            ServiceError::Api { code, .. } => {
                if str_eq(code.as_str(), "RequestLimitExceeded") {
                    ErrorKind::RateLimited
                } else if str_eq(code.as_str(), "FailedOperation.LanguageRecognitionErr") {
                    ErrorKind::LanguageRecognitionFailed
                } else {
                    ErrorKind::Other
                }
            },
            ServiceError::Transport { .. } => ErrorKind::Other,
        }
    }
}

} // verus!
