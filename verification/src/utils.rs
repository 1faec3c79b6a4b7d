//! Protocol constants and the error codes shared by clients and servers.
use vstd::prelude::*;

use crate::header::StatusCode;

verus! {

/// The two magic bytes `"FS"` that open every message, as a big-endian `u16`.
pub const MAGIC: u16 = 0x4653;

/// The protocol version this library speaks.
pub const VERSION: u8 = 0x1;

/// The largest chunk of file data carried in one message (64 KiB).
pub const MAX_CHUNK_SIZE: usize = 65536;

/// What can go wrong while building, reading or serving a message.
#[derive(Debug, Clone, Copy, PartialEq, Eq, Structural)]
pub enum ErrorCode {
    UnknownErr,
    ErrorNotFound,
    ErrorIo,
    ErrorExists,
    ErrorBadRequest,
    ErrorBadResponse,
    ErrorTimeOut,
    ErrorConnection,
    ErrorMem,
    /// Not a failure: a message part that has no bytes to contribute.
    Empty,
}

/// The status that a server reports for an error code.
pub open spec fn status_of(e: ErrorCode) -> StatusCode {
    match e {
        ErrorCode::ErrorIo => StatusCode::ErrorIo,
        ErrorCode::ErrorBadRequest => StatusCode::ErrorBadRequest,
        ErrorCode::ErrorNotFound => StatusCode::ErrorNotFound,
        ErrorCode::ErrorExists => StatusCode::ErrorExists,
        _ => StatusCode::ErrorBadRequest,
    }
}

/// The human-readable text of an error code.
pub open spec fn error_text(e: ErrorCode) -> Seq<char> {
    match e {
        ErrorCode::UnknownErr => "Unknown error occurred"@,
        ErrorCode::ErrorNotFound => "File or resource not found"@,
        ErrorCode::ErrorIo => "I/O error occurred"@,
        ErrorCode::ErrorExists => "File or resource already exists"@,
        ErrorCode::ErrorBadRequest => "Bad request format"@,
        ErrorCode::ErrorBadResponse => "Bad response format"@,
        ErrorCode::ErrorTimeOut => "Operation timed out"@,
        ErrorCode::ErrorMem => "Memory error"@,
        ErrorCode::ErrorConnection => "Connection error"@,
        ErrorCode::Empty => "Empty operation"@,
    }
}

impl ErrorCode {
    /// The status code that reports this error to a client: each of the four
    /// errors that a status names maps to it, every other error to
    /// `ErrorBadRequest`.
    pub fn map_to_stat_error(self) -> (s: StatusCode)
        ensures
            s == status_of(self),
    {
        let status_code = match self {
            ErrorCode::ErrorIo => StatusCode::ErrorIo,
            ErrorCode::ErrorBadRequest => StatusCode::ErrorBadRequest,
            ErrorCode::ErrorNotFound => StatusCode::ErrorNotFound,
            ErrorCode::ErrorExists => StatusCode::ErrorExists,
            _ => StatusCode::ErrorBadRequest,
        };
        status_code
    }

    /// The text that describes this error.
    pub fn message(&self) -> (m: &'static str)
        ensures
            m@ == error_text(*self),
    {
        match self {
            ErrorCode::UnknownErr => "Unknown error occurred",
            ErrorCode::ErrorNotFound => "File or resource not found",
            ErrorCode::ErrorIo => "I/O error occurred",
            ErrorCode::ErrorExists => "File or resource already exists",
            ErrorCode::ErrorBadRequest => "Bad request format",
            ErrorCode::ErrorBadResponse => "Bad response format",
            ErrorCode::ErrorTimeOut => "Operation timed out",
            ErrorCode::ErrorMem => "Memory error",
            ErrorCode::ErrorConnection => "Connection error",
            ErrorCode::Empty => "Empty operation",
        }
    }
}

} // verus!
