use vstd::prelude::*;

use crate::config::ConfigError;

verus! {

/// The error taxonomy of the gateway. Every externally visible failure
/// carries a stable kind (the variant) plus a human-readable message.
#[derive(Debug)]
pub enum AppError {
    /// An authentication failure (missing, invalid or expired token, or bad
    /// credentials).
    Auth(String),
    /// The client request is missing required fields.
    BadRequest(String),
    /// The requested resource does not exist.
    NotFound(String),
    /// An unexpected internal fault.
    Internal(String),
    /// The upstream provider call failed.
    OpenAI(String),
    /// The configuration could not be assembled.
    Config(ConfigError),
    /// Signing or verifying a session token failed.
    Jwt(String),
}

impl AppError {
    /// The HTTP status that this error maps to.
    pub open spec fn status_code_spec(&self) -> u16 {
        match self {
            AppError::Auth(_) => 401,
            AppError::BadRequest(_) => 400,
            AppError::NotFound(_) => 404,
            AppError::Internal(_) => 500,
            AppError::OpenAI(_) => 502,
            AppError::Config(_) => 500,
            AppError::Jwt(_) => 401,
        }
    }

    pub fn status_code(&self) -> (code: u16)
        ensures
            code == self.status_code_spec(),
    {
        match self {
            AppError::Auth(_) => 401,
            AppError::BadRequest(_) => 400,
            AppError::NotFound(_) => 404,
            AppError::Internal(_) => 500,
            AppError::OpenAI(_) => 502,
            AppError::Config(_) => 500,
            AppError::Jwt(_) => 401,
        }
    }
}

} // verus!
