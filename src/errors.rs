//! The service's error taxonomy, and how each class is reported to a caller.
use vstd::prelude::*;

verus! {

/// Every failure the service can report.
#[derive(Debug)]
pub enum AppError {
    /// The response cache could not be opened, read or written, or one of its
    /// records could not be decoded.
    CacheError(String),
    /// A provider that needs a bearer token has none configured.
    MissingCredential,
    /// The provider could not be reached (timeout, refused connection, ...).
    Transport(String),
    /// The provider answered with a status outside the success range.
    UpstreamStatus { status: u16, body: String },
    /// The provider answered with a payload of no recognized shape; holds the
    /// payload as it was received.
    UnrecognizedFormat(String),
    /// The configuration could not be loaded.
    Config(String),
    /// A file-system operation failed.
    Io(String),
    /// No home directory could be determined.
    MissingHomeDir,
    /// Anything else that went wrong inside the service.
    Internal(String),
}

/// HTTP status for a failure of the upstream provider.
pub const BAD_GATEWAY: u16 = 502;

/// HTTP status for a failure inside the service.
pub const INTERNAL_SERVER_ERROR: u16 = 500;

impl AppError {
    /// Whether the failure lies with the upstream provider rather than with the
    /// service itself.
    pub open spec fn is_upstream(&self) -> bool {
        match self {
            AppError::MissingCredential => true,
            AppError::Transport(_) => true,
            AppError::UpstreamStatus { .. } => true,
            AppError::UnrecognizedFormat(_) => true,
            _ => false,
        }
    }

    /// The HTTP status that reports this failure to a caller.
    pub fn status_code(&self) -> (r: u16)
        ensures
            r == (if self.is_upstream() {
                BAD_GATEWAY
            } else {
                INTERNAL_SERVER_ERROR
            }),
    {
        match self {
            AppError::MissingCredential => BAD_GATEWAY,
            AppError::Transport(_) => BAD_GATEWAY,
            AppError::UpstreamStatus { .. } => BAD_GATEWAY,
            AppError::UnrecognizedFormat(_) => BAD_GATEWAY,
            _ => INTERNAL_SERVER_ERROR,
        }
    }
}

} // verus!
