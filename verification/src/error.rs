//! Error kinds surfaced by the library.

use vstd::prelude::*;

verus! {

/// `std::io::Error`, declared so library errors can carry one.
#[verifier::external_type_specification]
#[verifier::external_body]
pub struct ExIoError(std::io::Error);

/// Errors the library reports. The shell renders them; the library only
/// carries the kind and a message.
#[derive(Debug)]
pub enum IaGetError {
    /// A transient network fault, retryable.
    Network(String),
    /// A permanent HTTP status.
    Http(String),
    /// Input that cannot be parsed.
    Parse(String),
    /// A JSON document that does not fit the schema.
    JsonParsing(String),
    /// A file system fault.
    FileSystem(String),
    /// A configuration fault.
    Config(String),
    /// Observed bytes disagree with advertised size or digest.
    Integrity(String),
    /// An existing session document cannot be used.
    SessionCorrupt(String),
    /// Input rejected before any work was done.
    InvalidInput(String),
    /// The run was cancelled.
    Cancelled,
    /// An underlying I/O error.
    Io(std::io::Error),
}

impl IaGetError {
    /// The message carried by the error, where one is carried.
    pub fn message(&self) -> (r: String)
        ensures
            match self {
                IaGetError::Network(m) => r@ == m@,
                IaGetError::Http(m) => r@ == m@,
                IaGetError::Parse(m) => r@ == m@,
                IaGetError::JsonParsing(m) => r@ == m@,
                IaGetError::FileSystem(m) => r@ == m@,
                IaGetError::Config(m) => r@ == m@,
                IaGetError::Integrity(m) => r@ == m@,
                IaGetError::SessionCorrupt(m) => r@ == m@,
                IaGetError::InvalidInput(m) => r@ == m@,
                IaGetError::Cancelled => r@ == "cancelled"@,
                IaGetError::Io(_) => true,
            },
    {
        match self {
            IaGetError::Network(m) => m.clone(),
            IaGetError::Http(m) => m.clone(),
            IaGetError::Parse(m) => m.clone(),
            IaGetError::JsonParsing(m) => m.clone(),
            IaGetError::FileSystem(m) => m.clone(),
            IaGetError::Config(m) => m.clone(),
            IaGetError::Integrity(m) => m.clone(),
            IaGetError::SessionCorrupt(m) => m.clone(),
            IaGetError::InvalidInput(m) => m.clone(),
            IaGetError::Cancelled => cancelled_message(),
            IaGetError::Io(_) => io_error_message(),
        }
    }
}

/// The fixed message for cancellation.
fn cancelled_message() -> (r: String)
    ensures
        r@ == "cancelled"@,
{
    String::from_str("cancelled")
}

/// The generic message for an I/O error; the shell renders the
/// error itself.
fn io_error_message() -> (r: String)
    ensures
        r@ == "i/o error"@,
{
    String::from_str("i/o error")
}

/// Error codes for callers that need a numeric classification.
#[derive(Debug, Clone, PartialEq, Eq, Structural)]
pub enum IaGetErrorCode {
    /// The operation succeeded.
    Success,
    /// Input rejected.
    InvalidInput,
    /// A network fault.
    NetworkError,
    /// A file system fault.
    FileSystemError,
    /// A parse fault.
    ParseError,
    /// Any other fault.
    UnknownError,
}

impl IaGetErrorCode {
    /// The stable numeric value of the code.
    pub fn code(&self) -> (r: i32)
        ensures
            r == match self {
                IaGetErrorCode::Success => 0int,
                IaGetErrorCode::InvalidInput => 1int,
                IaGetErrorCode::NetworkError => 2int,
                IaGetErrorCode::FileSystemError => 3int,
                IaGetErrorCode::ParseError => 4int,
                IaGetErrorCode::UnknownError => 5int,
            },
    {
        match self {
            IaGetErrorCode::Success => 0,
            IaGetErrorCode::InvalidInput => 1,
            IaGetErrorCode::NetworkError => 2,
            IaGetErrorCode::FileSystemError => 3,
            IaGetErrorCode::ParseError => 4,
            IaGetErrorCode::UnknownError => 5,
        }
    }
}

} // verus!
