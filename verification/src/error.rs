//! The error taxonomy, its numeric classes, and the diagnostic slot that
//! remembers the last error.
//!
//! The slot is an ordinary value that its owner passes along. Whoever needs
//! one slot for a whole process keeps it behind a lock of its own; the
//! `Result` that each call returns stays the authoritative channel.

use vstd::prelude::*;
use crate::text::concat;

verus! {

/// Everything that can go wrong, by kind.
#[derive(Debug)]
pub enum HushError {
    HttpError(String),
    RouteNotFound,
    MethodNotAllowed,
    DatabaseError(String),
    ConnectionFailed,
    QueryFailed(String),
    TransactionFailed,
    AuthenticationFailed,
    AuthorizationFailed,
    InvalidToken,
    TokenExpired,
    ConfigError(String),
    ConfigNotFound(String),
    ConfigParseError(String),
    FileError(String),
    FileNotFound,
    PermissionDenied,
    ValidationError(String),
    InvalidInput(String),
    InternalError(String),
    OutOfMemory,
    Timeout,
    FFIError(String),
    NullPointer,
    InvalidParameter,
}

pub type HushResult<T> = Result<T, HushError>;

/// The numeric class of an error, as handed across the foreign boundary.
#[derive(Debug, Clone, Copy, PartialEq, Eq, Structural)]
pub enum ErrorCode {
    Success,
    HttpError,
    DatabaseError,
    AuthError,
    ConfigError,
    FileError,
    ValidationError,
    InternalError,
}

impl ErrorCode {
    /// The number that stands for this class.
    pub open spec fn number(self) -> int {
        match self {
            ErrorCode::Success => 0,
            ErrorCode::HttpError => 1000,
            ErrorCode::DatabaseError => 2000,
            ErrorCode::AuthError => 3000,
            ErrorCode::ConfigError => 4000,
            ErrorCode::FileError => 5000,
            ErrorCode::ValidationError => 6000,
            ErrorCode::InternalError => 9000,
        }
    }

    /// The number that stands for this class.
    pub fn as_i32(&self) -> (n: i32)
        ensures
            n == self.number(),
    {
        match self {
            ErrorCode::Success => 0,
            ErrorCode::HttpError => 1000,
            ErrorCode::DatabaseError => 2000,
            ErrorCode::AuthError => 3000,
            ErrorCode::ConfigError => 4000,
            ErrorCode::FileError => 5000,
            ErrorCode::ValidationError => 6000,
            ErrorCode::InternalError => 9000,
        }
    }
}

/// The class that an error belongs to. Errors of the system, of the foreign
/// boundary and of resources all count as internal.
pub open spec fn class_of(error: HushError) -> ErrorCode {
    match error {
        HushError::HttpError(_) | HushError::RouteNotFound | HushError::MethodNotAllowed =>
            ErrorCode::HttpError,
        HushError::DatabaseError(_)
        | HushError::ConnectionFailed
        | HushError::QueryFailed(_)
        | HushError::TransactionFailed => ErrorCode::DatabaseError,
        HushError::AuthenticationFailed
        | HushError::AuthorizationFailed
        | HushError::InvalidToken
        | HushError::TokenExpired => ErrorCode::AuthError,
        HushError::ConfigError(_) | HushError::ConfigNotFound(_) | HushError::ConfigParseError(_) =>
            ErrorCode::ConfigError,
        HushError::FileError(_) | HushError::FileNotFound | HushError::PermissionDenied =>
            ErrorCode::FileError,
        HushError::ValidationError(_) | HushError::InvalidInput(_) => ErrorCode::ValidationError,
        _ => ErrorCode::InternalError,
    }
}

impl From<HushError> for ErrorCode {
    fn from(error: HushError) -> (code: ErrorCode) {
        error.code()
    }
}

impl vstd::std_specs::convert::FromSpecImpl<HushError> for ErrorCode {
    open spec fn obeys_from_spec() -> bool {
        true
    }

    open spec fn from_spec(error: HushError) -> ErrorCode {
        class_of(error)
    }
}

impl HushError {
    /// The class of this error.
    pub fn code(&self) -> (code: ErrorCode)
        ensures
            code == class_of(*self),
            code != ErrorCode::Success,
    {
        match self {
            HushError::HttpError(_) | HushError::RouteNotFound | HushError::MethodNotAllowed =>
                ErrorCode::HttpError,
            HushError::DatabaseError(_)
            | HushError::ConnectionFailed
            | HushError::QueryFailed(_)
            | HushError::TransactionFailed => ErrorCode::DatabaseError,
            HushError::AuthenticationFailed
            | HushError::AuthorizationFailed
            | HushError::InvalidToken
            | HushError::TokenExpired => ErrorCode::AuthError,
            HushError::ConfigError(_)
            | HushError::ConfigNotFound(_)
            | HushError::ConfigParseError(_) => ErrorCode::ConfigError,
            HushError::FileError(_) | HushError::FileNotFound | HushError::PermissionDenied =>
                ErrorCode::FileError,
            HushError::ValidationError(_) | HushError::InvalidInput(_) =>
                ErrorCode::ValidationError,
            _ => ErrorCode::InternalError,
        }
    }

    /// The text that describes this error to a reader.
    pub open spec fn text(self) -> Seq<char> {
        match self {
            HushError::HttpError(m) => "HTTP Error: "@ + m@,
            HushError::RouteNotFound => "Route not found"@,
            HushError::MethodNotAllowed => "Method not allowed"@,
            HushError::DatabaseError(m) => "Database Error: "@ + m@,
            HushError::ConnectionFailed => "Database connection failed"@,
            HushError::QueryFailed(m) => "Query failed: "@ + m@,
            HushError::TransactionFailed => "Transaction failed"@,
            HushError::AuthenticationFailed => "Authentication failed"@,
            HushError::AuthorizationFailed => "Authorization failed"@,
            HushError::InvalidToken => "Invalid token"@,
            HushError::TokenExpired => "Token expired"@,
            HushError::ConfigError(m) => "Configuration Error: "@ + m@,
            HushError::ConfigNotFound(m) => "Configuration not found: "@ + m@,
            HushError::ConfigParseError(m) => "Configuration parse error: "@ + m@,
            HushError::FileError(m) => "File Error: "@ + m@,
            HushError::FileNotFound => "File not found"@,
            HushError::PermissionDenied => "Permission denied"@,
            HushError::ValidationError(m) => "Validation Error: "@ + m@,
            HushError::InvalidInput(m) => "Invalid input: "@ + m@,
            HushError::InternalError(m) => "Internal Error: "@ + m@,
            HushError::OutOfMemory => "Out of memory"@,
            HushError::Timeout => "Operation timeout"@,
            HushError::FFIError(m) => "FFI Error: "@ + m@,
            HushError::NullPointer => "Null pointer"@,
            HushError::InvalidParameter => "Invalid parameter"@,
        }
    }

    /// The text that describes this error to a reader.
    pub fn to_string(&self) -> (s: String)
        ensures
            s@ == self.text(),
    {
        match self {
            HushError::HttpError(m) => concat("HTTP Error: ", m.as_str()),
            HushError::RouteNotFound => "Route not found".to_owned(),
            HushError::MethodNotAllowed => "Method not allowed".to_owned(),
            HushError::DatabaseError(m) => concat("Database Error: ", m.as_str()),
            HushError::ConnectionFailed => "Database connection failed".to_owned(),
            HushError::QueryFailed(m) => concat("Query failed: ", m.as_str()),
            HushError::TransactionFailed => "Transaction failed".to_owned(),
            HushError::AuthenticationFailed => "Authentication failed".to_owned(),
            HushError::AuthorizationFailed => "Authorization failed".to_owned(),
            HushError::InvalidToken => "Invalid token".to_owned(),
            HushError::TokenExpired => "Token expired".to_owned(),
            HushError::ConfigError(m) => concat("Configuration Error: ", m.as_str()),
            HushError::ConfigNotFound(m) => concat("Configuration not found: ", m.as_str()),
            HushError::ConfigParseError(m) => concat("Configuration parse error: ", m.as_str()),
            HushError::FileError(m) => concat("File Error: ", m.as_str()),
            HushError::FileNotFound => "File not found".to_owned(),
            HushError::PermissionDenied => "Permission denied".to_owned(),
            HushError::ValidationError(m) => concat("Validation Error: ", m.as_str()),
            HushError::InvalidInput(m) => concat("Invalid input: ", m.as_str()),
            HushError::InternalError(m) => concat("Internal Error: ", m.as_str()),
            HushError::OutOfMemory => "Out of memory".to_owned(),
            HushError::Timeout => "Operation timeout".to_owned(),
            HushError::FFIError(m) => concat("FFI Error: ", m.as_str()),
            HushError::NullPointer => "Null pointer".to_owned(),
            HushError::InvalidParameter => "Invalid parameter".to_owned(),
        }
    }
}

impl Clone for HushError {
    fn clone(&self) -> (copy: Self)
        ensures
            copy == *self,
    {
        match self {
            HushError::HttpError(m) => HushError::HttpError(m.clone()),
            HushError::RouteNotFound => HushError::RouteNotFound,
            HushError::MethodNotAllowed => HushError::MethodNotAllowed,
            HushError::DatabaseError(m) => HushError::DatabaseError(m.clone()),
            HushError::ConnectionFailed => HushError::ConnectionFailed,
            HushError::QueryFailed(m) => HushError::QueryFailed(m.clone()),
            HushError::TransactionFailed => HushError::TransactionFailed,
            HushError::AuthenticationFailed => HushError::AuthenticationFailed,
            HushError::AuthorizationFailed => HushError::AuthorizationFailed,
            HushError::InvalidToken => HushError::InvalidToken,
            HushError::TokenExpired => HushError::TokenExpired,
            HushError::ConfigError(m) => HushError::ConfigError(m.clone()),
            HushError::ConfigNotFound(m) => HushError::ConfigNotFound(m.clone()),
            HushError::ConfigParseError(m) => HushError::ConfigParseError(m.clone()),
            HushError::FileError(m) => HushError::FileError(m.clone()),
            HushError::FileNotFound => HushError::FileNotFound,
            HushError::PermissionDenied => HushError::PermissionDenied,
            HushError::ValidationError(m) => HushError::ValidationError(m.clone()),
            HushError::InvalidInput(m) => HushError::InvalidInput(m.clone()),
            HushError::InternalError(m) => HushError::InternalError(m.clone()),
            HushError::OutOfMemory => HushError::OutOfMemory,
            HushError::Timeout => HushError::Timeout,
            HushError::FFIError(m) => HushError::FFIError(m.clone()),
            HushError::NullPointer => HushError::NullPointer,
            HushError::InvalidParameter => HushError::InvalidParameter,
        }
    }
}

/// The diagnostic slot: it holds the error that was recorded last, or
/// nothing. It is a debugging aid; under concurrency the last writer wins.
#[derive(Debug)]
pub struct LastError {
    pub slot: Option<HushError>,
}

impl LastError {
    /// A slot that holds nothing.
    pub fn new() -> (s: Self)
        ensures
            s.slot is None,
    {
        LastError { slot: None }
    }
}

/// Records `error`; what the slot held before is lost.
pub fn set_last_error(last: &mut LastError, error: HushError)
    ensures
        final(last).slot == Some(error),
{
    last.slot = Some(error);
}

/// What the slot holds. The slot keeps it.
pub fn get_last_error(last: &LastError) -> (held: Option<HushError>)
    ensures
        held == last.slot,
{
    match &last.slot {
        Some(e) => Some(e.clone()),
        None => None,
    }
}

/// Empties the slot.
pub fn clear_last_error(last: &mut LastError)
    ensures
        final(last).slot is None,
{
    last.slot = None;
}

/// The text of the recorded error, for a caller across the boundary.
pub fn last_error_text(last: &LastError) -> (text: Option<String>)
    ensures
        last.slot is None ==> text is None,
        last.slot matches Some(e) ==> (text matches Some(t) && t@ == e.text()),
{
    match &last.slot {
        Some(e) => Some(e.to_string()),
        None => None,
    }
}

/// The class of the recorded error; `Success` where the slot is empty.
pub fn last_error_code(last: &LastError) -> (code: ErrorCode)
    ensures
        last.slot is None ==> code == ErrorCode::Success,
        last.slot matches Some(e) ==> code == class_of(e),
{
    match &last.slot {
        Some(e) => e.code(),
        None => ErrorCode::Success,
    }
}

} // verus!
