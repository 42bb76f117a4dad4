//! Failure taxonomy of the node's administrative surface.
//!
//! Every externally observable failure carries a category and a
//! human-readable cause.  Device-layer errors (`NexusBdevError`) and
//! scheduling errors (`CoreError`) are mapped onto these categories:
//! malformed or unsupported child URIs become invalid-argument, queue
//! exhaustion becomes resource-exhausted, a failed configuration export
//! becomes data-loss, a lost write reservation becomes
//! reservation-conflict, and everything else is internal.

use vstd::prelude::*;

verus! {

/// Category of an externally observable failure.
#[derive(Clone, Copy, Debug, PartialEq, Eq, Structural)]
pub enum StatusCode {
    InvalidArgument,
    Internal,
    ResourceExhausted,
    DataLoss,
    ReservationConflict,
}

/// An externally observable failure: a category plus a human-readable
/// cause string.
#[derive(Debug)]
pub struct Status {
    pub code: StatusCode,
    pub message: String,
}

impl Status {
    pub fn invalid_argument(message: String) -> (r: Status)
        ensures
            r.code == StatusCode::InvalidArgument,
            r.message == message,
    {
        Status { code: StatusCode::InvalidArgument, message }
    }

    pub fn internal(message: String) -> (r: Status)
        ensures
            r.code == StatusCode::Internal,
            r.message == message,
    {
        Status { code: StatusCode::Internal, message }
    }

    pub fn resource_exhausted(message: String) -> (r: Status)
        ensures
            r.code == StatusCode::ResourceExhausted,
            r.message == message,
    {
        Status { code: StatusCode::ResourceExhausted, message }
    }

    pub fn data_loss(message: String) -> (r: Status)
        ensures
            r.code == StatusCode::DataLoss,
            r.message == message,
    {
        Status { code: StatusCode::DataLoss, message }
    }

    pub fn reservation_conflict(message: String) -> (r: Status)
        ensures
            r.code == StatusCode::ReservationConflict,
            r.message == message,
    {
        Status { code: StatusCode::ReservationConflict, message }
    }
}

/// An error raised while an operation runs on the reactor; the mapping
/// to a status carries the category and the cause.
pub trait ToStatus: Sized {
    /// Category under which this error is reported.
    spec fn spec_status_code(&self) -> StatusCode;

    /// Cause string under which this error is reported.
    spec fn spec_message(&self) -> Seq<char>;

    /// Convert the error into the status reported to the caller.
    fn into_status(self) -> (s: Status)
        ensures
            s.code == self.spec_status_code(),
            s.message@ == self.spec_message(),
    ;
}

/// Device-layer error: parsing or opening a child URI failed.
#[derive(Debug)]
pub enum NexusBdevError {
    /// The URI has no `scheme://` part at all.
    UrlParseError { url: String },
    /// The URI's scheme names a backing kind this node does not support.
    UriSchemeUnsupported { scheme: String },
    /// The URI is well-formed but names no usable backing object.
    UriInvalid { uri: String },
    /// The named backing device does not exist.
    BdevNotFound { name: String },
}

impl ToStatus for NexusBdevError {
    open spec fn spec_status_code(&self) -> StatusCode {
        match self {
            NexusBdevError::UrlParseError { .. } => StatusCode::InvalidArgument,
            NexusBdevError::UriSchemeUnsupported { .. } => StatusCode::InvalidArgument,
            NexusBdevError::UriInvalid { .. } => StatusCode::InvalidArgument,
            NexusBdevError::BdevNotFound { .. } => StatusCode::Internal,
        }
    }

    open spec fn spec_message(&self) -> Seq<char> {
        match self {
            NexusBdevError::UrlParseError { url } => "failed to parse URL: "@ + url@,
            NexusBdevError::UriSchemeUnsupported { scheme } => "unsupported URI scheme: "@
                + scheme@,
            NexusBdevError::UriInvalid { uri } => "invalid URI: "@ + uri@,
            NexusBdevError::BdevNotFound { name } => "bdev not found: "@ + name@,
        }
    }

    fn into_status(self) -> (s: Status)
        ensures
            s.code == self.spec_status_code(),
            s.message@ == self.spec_message(),
    {
        match self {
            NexusBdevError::UrlParseError { url } => Status::invalid_argument(
                String::from_str("failed to parse URL: ").concat(url.as_str()),
            ),
            NexusBdevError::UriSchemeUnsupported { scheme } => Status::invalid_argument(
                String::from_str("unsupported URI scheme: ").concat(scheme.as_str()),
            ),
            NexusBdevError::UriInvalid { uri } => Status::invalid_argument(
                String::from_str("invalid URI: ").concat(uri.as_str()),
            ),
            NexusBdevError::BdevNotFound { name } => Status::internal(
                String::from_str("bdev not found: ").concat(name.as_str()),
            ),
        }
    }
}

/// Scheduling error of the cooperative reactor core.
#[derive(Clone, Copy, Debug, PartialEq, Eq, Structural)]
pub enum CoreError {
    /// The reactor was already shut down and can make no progress.
    ReactorShutdown,
}

impl ToStatus for CoreError {
    open spec fn spec_status_code(&self) -> StatusCode {
        StatusCode::Internal
    }

    open spec fn spec_message(&self) -> Seq<char> {
        "reactor shut down"@
    }

    fn into_status(self) -> (s: Status)
        ensures
            s.code == self.spec_status_code(),
            s.message@ == self.spec_message(),
    {
        Status::internal(String::from_str("reactor shut down"))
    }
}

} // verus!
