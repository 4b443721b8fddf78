//! The error type shared by the library.
use vstd::prelude::*;

verus! {

/// Errors reported by the library; each carries a human-readable message.
#[derive(Debug)]
pub enum AppError {
    /// An HTTP API answered with this status and message.
    ApiError { status: u16, message: String },
    ConnectionFailed(String),
    InterrogatorError(String),
    InvalidWorkflow(String),
    Other(String),
    ProcessSpawnFailed(String),
}

impl AppError {
    /// The message carried by the error.
    pub fn message(&self) -> (m: &String)
        ensures
            m == match self {
                AppError::ApiError { message, .. } => message,
                AppError::ConnectionFailed(s) => s,
                AppError::InterrogatorError(s) => s,
                AppError::InvalidWorkflow(s) => s,
                AppError::Other(s) => s,
                AppError::ProcessSpawnFailed(s) => s,
            },
    {
        match self {
            AppError::ApiError { message, .. } => message,
            AppError::ConnectionFailed(s) => s,
            AppError::InterrogatorError(s) => s,
            AppError::InvalidWorkflow(s) => s,
            AppError::Other(s) => s,
            AppError::ProcessSpawnFailed(s) => s,
        }
    }
}

} // verus!
