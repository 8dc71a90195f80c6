//! The error taxonomy: every fatal condition surfaces as one `AppError`
//! carrying its kind and a human-readable message. Responses built from
//! these are all-or-nothing; no partially degraded value is returned.

use vstd::prelude::*;

verus! {

/// Why a request failed.
#[derive(PartialEq, Eq, Structural, Clone, Copy, Debug)]
pub enum ErrorKind {
    /// Retries against the upstream source are exhausted.
    UpstreamUnavailable,
    /// A required field or shape is absent from the payload.
    MalformedPayload,
    /// A realtime reading is past the freshness window.
    StaleData,
    /// The current-hour index lies beyond an aligned channel.
    IndexOutOfRange,
}

/// An opaque fatal error with a human-readable message.
#[derive(Debug)]
pub struct AppError {
    pub kind: ErrorKind,
    pub message: String,
}

impl AppError {
    pub fn new(kind: ErrorKind, msg: &str) -> (e: AppError)
        ensures
            e.kind == kind,
            e.message@ == msg@,
    {
        AppError { kind, message: msg.to_owned() }
    }

    pub fn malformed(msg: &str) -> (e: AppError)
        ensures
            e.kind == ErrorKind::MalformedPayload,
            e.message@ == msg@,
    {
        AppError { kind: ErrorKind::MalformedPayload, message: msg.to_owned() }
    }
}

} // verus!
