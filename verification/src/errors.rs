//! The error model of the HTTP API: each error has a status code, a stable
//! machine-readable code and a message for the user.

use vstd::prelude::*;
use vstd::string::StringExecFns;

verus! {

/// The ways an API request can fail.
#[derive(Debug)]
pub enum AppError {
    /// The request is malformed or lacks a parameter.
    BadRequest(String),
    /// Access was denied (a path outside the sandbox, a bad token).
    Forbidden(String),
    /// The project, run, file or resource does not exist.
    NotFound(String),
    /// The request conflicts with the current state.
    Conflict(String),
    /// A payload or file exceeds its limit.
    PayloadTooLarge(String),
    /// A mutating request reached a read-only server.
    ReadOnly,
    /// An optional tool is not installed.
    DependencyMissing(&'static str),
    /// Any other failure.
    Internal(String),
}

/// The HTTP status code of each error.
pub open spec fn error_status(e: AppError) -> u16 {
    match e {
        AppError::BadRequest(_) => 400,
        AppError::Forbidden(_) | AppError::ReadOnly => 403,
        AppError::NotFound(_) | AppError::DependencyMissing(_) => 404,
        AppError::Conflict(_) => 409,
        AppError::PayloadTooLarge(_) => 413,
        AppError::Internal(_) => 500,
    }
}

/// The machine-readable code of each error.
pub open spec fn error_code(e: AppError) -> Seq<char> {
    match e {
        AppError::BadRequest(_) => "bad_request"@,
        AppError::Forbidden(_) => "forbidden"@,
        AppError::NotFound(_) => "not_found"@,
        AppError::Conflict(_) => "conflict"@,
        AppError::PayloadTooLarge(_) => "payload_too_large"@,
        AppError::ReadOnly => "read_only"@,
        AppError::DependencyMissing(_) => "dependency_missing"@,
        AppError::Internal(_) => "internal_error"@,
    }
}

/// The user-facing message of each error.
pub open spec fn error_message(e: AppError) -> Seq<char> {
    match e {
        AppError::BadRequest(m) => m@,
        AppError::Forbidden(m) => m@,
        AppError::NotFound(m) => m@,
        AppError::Conflict(m) => m@,
        AppError::PayloadTooLarge(m) => m@,
        AppError::Internal(m) => m@,
        AppError::ReadOnly => "Server is running in read-only mode"@,
        AppError::DependencyMissing(tool) => "Optional dependency '"@ + tool@
            + "' is not available in PATH"@,
    }
}

impl AppError {
    /// The HTTP status code of this error.
    pub fn status(&self) -> (r: u16)
        ensures
            r == error_status(*self),
    {
        match self {
            AppError::BadRequest(_) => 400,
            AppError::Forbidden(_) | AppError::ReadOnly => 403,
            AppError::NotFound(_) | AppError::DependencyMissing(_) => 404,
            AppError::Conflict(_) => 409,
            AppError::PayloadTooLarge(_) => 413,
            AppError::Internal(_) => 500,
        }
    }

    /// The machine-readable code of this error.
    pub fn code(&self) -> (r: &'static str)
        ensures
            r@ == error_code(*self),
    {
        match self {
            AppError::BadRequest(_) => "bad_request",
            AppError::Forbidden(_) => "forbidden",
            AppError::NotFound(_) => "not_found",
            AppError::Conflict(_) => "conflict",
            AppError::PayloadTooLarge(_) => "payload_too_large",
            AppError::ReadOnly => "read_only",
            AppError::DependencyMissing(_) => "dependency_missing",
            AppError::Internal(_) => "internal_error",
        }
    }

    /// The user-facing message of this error.
    pub fn message(&self) -> (r: String)
        ensures
            r@ == error_message(*self),
    {
        match self {
            AppError::BadRequest(m) | AppError::Forbidden(m) | AppError::NotFound(m)
            | AppError::Conflict(m) | AppError::PayloadTooLarge(m) | AppError::Internal(m) => m.clone(),
            AppError::ReadOnly => "Server is running in read-only mode".to_string(),
            AppError::DependencyMissing(tool) => {
                let mut s = "Optional dependency '".to_string();
                s.append(tool);
                s.append("' is not available in PATH");
                s
            },
        }
    }
}

} // verus!
