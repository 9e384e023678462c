//! Typed errors surfaced by the engine.

use vstd::prelude::*;
use vstd::string::StringExecFns;

verus! {

/// Mathematical image of an [`AppError`].
pub ghost struct AppErrorV {
    pub code: Seq<char>,
    pub message: Seq<char>,
    pub details: Option<Seq<char>>,
}

/// Application-wide error value: a stable code, a human-readable
/// message, and optional detail text.
#[derive(Debug, Clone)]
pub struct AppError {
    pub code: String,
    pub message: String,
    pub details: Option<String>,
}

impl View for AppError {
    type V = AppErrorV;

    open spec fn view(&self) -> AppErrorV {
        AppErrorV {
            code: self.code@,
            message: self.message@,
            details: match self.details {
                Some(d) => Some(d@),
                None => None,
            },
        }
    }
}

impl AppError {
    /// An error carrying a code and a message, with no details.
    pub fn new(code: &str, message: &str) -> (r: Self)
        ensures
            r@.code == code@,
            r@.message == message@,
            r@.details is None,
    {
        AppError { code: String::from_str(code), message: String::from_str(message), details: None }
    }

    /// An error carrying a code, a message and detail text.
    pub fn with_details(code: &str, message: &str, details: &str) -> (r: Self)
        ensures
            r@.code == code@,
            r@.message == message@,
            r@.details == Some(details@),
    {
        AppError {
            code: String::from_str(code),
            message: String::from_str(message),
            details: Some(String::from_str(details)),
        }
    }

    /// The rendering `[CODE] message` used when the error is shown.
    pub fn display_string(&self) -> (r: String)
        ensures
            r@ == seq!['['] + self@.code + seq![']', ' '] + self@.message,
    {
        let mut s = String::from_str("[");
        s.append(self.code.as_str());
        s.append("] ");
        s.append(self.message.as_str());
        proof {
            reveal_strlit("[");
            reveal_strlit("] ");
            assert(s@ =~= seq!['['] + self@.code + seq![']', ' '] + self@.message);
        }
        s
    }
}

/// Failures of the ADB facade, before they are surfaced.
#[derive(Debug, Clone)]
pub enum AdbError {
    NotFound,
    ExecutionFailed(String),
    ParseError(String),
    DeviceNotFound(String),
    Unauthorized(String),
    Timeout,
}

impl AppError {
    /// Surfaces an [`AdbError`] under its stable code, keeping the
    /// variant's payload as the detail text.
    pub fn from(err: AdbError) -> (r: AppError)
        ensures
            r@ == adb_error_surfaced(err),
    {
        match err {
            AdbError::NotFound => AppError::new(
                "ADB_NOT_FOUND",
                "ADB executable not found. Please ensure Android platform-tools are installed.",
            ),
            AdbError::ExecutionFailed(msg) => AppError::with_details(
                "ADB_EXECUTION_FAILED",
                "Failed to execute ADB command",
                msg.as_str(),
            ),
            AdbError::ParseError(msg) => AppError::with_details(
                "ADB_PARSE_ERROR",
                "Failed to parse ADB output",
                msg.as_str(),
            ),
            AdbError::DeviceNotFound(id) => AppError::with_details(
                "DEVICE_NOT_FOUND",
                "Device not found or disconnected",
                id.as_str(),
            ),
            AdbError::Unauthorized(id) => AppError::with_details(
                "DEVICE_UNAUTHORIZED",
                "Device requires USB debugging authorization",
                id.as_str(),
            ),
            AdbError::Timeout => AppError::new("ADB_TIMEOUT", "ADB command timed out"),
        }
    }
}

/// How each [`AdbError`] is surfaced as an [`AppError`].
pub open spec fn adb_error_surfaced(err: AdbError) -> AppErrorV {
    match err {
        AdbError::NotFound => AppErrorV {
            code: "ADB_NOT_FOUND"@,
            message: "ADB executable not found. Please ensure Android platform-tools are installed."@,
            details: None,
        },
        AdbError::ExecutionFailed(msg) => AppErrorV {
            code: "ADB_EXECUTION_FAILED"@,
            message: "Failed to execute ADB command"@,
            details: Some(msg@),
        },
        AdbError::ParseError(msg) => AppErrorV {
            code: "ADB_PARSE_ERROR"@,
            message: "Failed to parse ADB output"@,
            details: Some(msg@),
        },
        AdbError::DeviceNotFound(id) => AppErrorV {
            code: "DEVICE_NOT_FOUND"@,
            message: "Device not found or disconnected"@,
            details: Some(id@),
        },
        AdbError::Unauthorized(id) => AppErrorV {
            code: "DEVICE_UNAUTHORIZED"@,
            message: "Device requires USB debugging authorization"@,
            details: Some(id@),
        },
        AdbError::Timeout => AppErrorV {
            code: "ADB_TIMEOUT"@,
            message: "ADB command timed out"@,
            details: None,
        },
    }
}

} // verus!
