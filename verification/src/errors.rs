//! The error that the services hand to their callers.

use vstd::prelude::*;

verus! {

/// What went wrong, by the part of the system that failed.
#[derive(Clone, Copy, Debug, PartialEq, Eq, Structural)]
pub enum AppErrorType {
    DbError,
    GrpcError,
    SerdeError,
}

/// An error with the message that the caller is shown.
#[derive(Debug)]
pub struct AppError {
    pub message: Option<String>,
    pub error_type: AppErrorType,
}

/// The body of the response that reports an error.
#[derive(Debug)]
pub struct AppErrorResponse {
    pub error: String,
}

/// The message of an error that has none of its own.
pub open spec fn unspecified_message() -> Seq<char> {
    "Error description unspecified"@
}

/// The message that the caller of a failed service is shown.
pub open spec fn shown_message(error: AppError) -> Seq<char> {
    match error.message {
        Some(message) => message@,
        None => unspecified_message(),
    }
}

impl AppError {
    /// The error's message, or a fixed text when it has none.
    pub fn message(&self) -> (r: String)
        ensures
            r@ == shown_message(*self),
    {
        match &self.message {
            Some(message) => message.clone(),
            None => "Error description unspecified".to_owned(),
        }
    }

    /// The error for a failed read or write of the database. The cause is
    /// not shown to the caller.
    pub fn db_error(error: impl ToString) -> (r: AppError)
        ensures
            r.error_type == AppErrorType::DbError,
            r.message matches Some(m) && m@ == "Internal server Error: database error"@,
    {
        let _ = error;
        AppError {
            message: Some("Internal server Error: database error".to_owned()),
            error_type: AppErrorType::DbError,
        }
    }

    /// The error for a failed call of a peer service. The cause is not
    /// shown to the caller.
    pub fn grpc_error(error: impl ToString) -> (r: AppError)
        ensures
            r.error_type == AppErrorType::GrpcError,
            r.message matches Some(m) && m@ == "Internal server Error: gRPC error"@,
    {
        let _ = error;
        AppError {
            message: Some("Internal server Error: gRPC error".to_owned()),
            error_type: AppErrorType::GrpcError,
        }
    }

    /// The error for a value that could not be written out. It is filed
    /// with the failed calls of peer services. The cause is not shown to the
    /// caller.
    pub fn serde_error(error: impl ToString) -> (r: AppError)
        ensures
            r.error_type == AppErrorType::GrpcError,
            r.message matches Some(m) && m@ == "Internal server Error: serializing error"@,
    {
        let _ = error;
        AppError {
            message: Some("Internal server Error: serializing error".to_owned()),
            error_type: AppErrorType::GrpcError,
        }
    }

    /// The HTTP status under which the error is reported: 500 for every
    /// kind of error.
    pub fn status_code(&self) -> (r: u16)
        ensures
            r == 500,
    {
        match self.error_type {
            AppErrorType::DbError => 500,
            AppErrorType::GrpcError => 500,
            AppErrorType::SerdeError => 500,
        }
    }

    /// The body of the response that reports the error.
    pub fn error_response(&self) -> (r: AppErrorResponse)
        ensures
            r.error@ == shown_message(*self),
    {
        AppErrorResponse { error: self.message() }
    }
}

} // verus!
