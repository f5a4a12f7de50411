//! The errors of the service.
use vstd::prelude::*;
use vstd::string::*;
use crate::text::{decimal_text, digits_of, prefixed};

verus! {

/// Why fetching a remote URL on behalf of an upload failed.
#[derive(Debug)]
pub enum RequestFailure {
    /// The URL could not be understood.
    InvalidUrl,
    /// The remote answer was larger than the fetcher accepts.
    ResponseTooLarge,
    /// The remote host did not answer in time.
    RequestTimeout,
    /// The remote host answered with this non-successful status code.
    NonSuccessfulStatusCode(u16),
    /// Any other transport failure, with its description.
    Other(String),
}

/// Everything that can go wrong while serving an upload, an access or a
/// clean-up tick.
#[derive(Debug)]
pub enum AppError {
    /// No database connection could be had from the pool.
    Pool(String),
    /// The database worker failed while running a unit of work.
    Interaction(String),
    /// The database refused a statement.
    Sqlite(String),
    /// A file could not be read, written or removed.
    IO(String),
    /// The multipart body was malformed; the payload is the HTTP status the
    /// multipart layer asks for.
    Multipart(u16),
    /// The remote URL given in place of a file could not be fetched.
    RequestError(RequestFailure),
    /// Content sniffing failed.
    MagicError(String),
    /// The form held neither a `file` nor a `url` field.
    NoFileUploaded,
    /// A form field came without a name.
    FieldHasNoName,
    /// The `tail_len` field of the form is no length; the payload says why.
    LenParseError(String),
    /// The `expires` field of the form is no expiry; the payload says why.
    ExpiresParseError(String),
    /// The configuration file could not be understood.
    ConfigParseError(String),
    /// The upload is larger than the configured ceiling.
    FileTooLarge,
    /// Every sampled tail of the requested length was already taken.
    TailDrained,
    /// The tail resolves to nothing.
    TailNotFound,
}

impl RequestFailure {
    /// The text that describes the failure in a log line.
    pub open spec fn text(self) -> Seq<char> {
        match self {
            RequestFailure::InvalidUrl => "Invalid URL"@,
            RequestFailure::ResponseTooLarge => "Response body size exceeds max limit"@,
            RequestFailure::RequestTimeout => "Request is not finished within timeout"@,
            RequestFailure::NonSuccessfulStatusCode(code) => "Non-successful status code: "@
                + digits_of(code as nat),
            RequestFailure::Other(m) => m@,
        }
    }

    /// Describes the failure for a log line.
    pub fn message(&self) -> (r: String)
        ensures
            r@ == self.text(),
    {
        match self {
            RequestFailure::InvalidUrl => String::from_str("Invalid URL"),
            RequestFailure::ResponseTooLarge => String::from_str(
                "Response body size exceeds max limit",
            ),
            RequestFailure::RequestTimeout => String::from_str(
                "Request is not finished within timeout",
            ),
            RequestFailure::NonSuccessfulStatusCode(code) => {
                let digits = decimal_text(*code);
                prefixed("Non-successful status code: ", digits.as_str())
            },
            RequestFailure::Other(m) => m.clone(),
        }
    }
}

impl AppError {
    /// The text that describes the error in a log line or a response body.
    pub open spec fn text(self) -> Seq<char> {
        match self {
            AppError::Pool(m) => "database connection pool error: "@ + m@,
            AppError::Interaction(m) => "database interaction error: "@ + m@,
            AppError::Sqlite(m) => "sqlite error: "@ + m@,
            AppError::IO(m) => "io error: "@ + m@,
            AppError::Multipart(_) => "multipart error"@,
            AppError::RequestError(f) => "request error: "@ + f.text(),
            AppError::MagicError(m) => "magic error: "@ + m@,
            AppError::NoFileUploaded => "no file uploaded"@,
            AppError::FieldHasNoName => "field has no name"@,
            AppError::LenParseError(m) => m@,
            AppError::ExpiresParseError(m) => m@,
            AppError::ConfigParseError(m) => m@,
            AppError::FileTooLarge => "file too large"@,
            AppError::TailDrained => "tail drained"@,
            AppError::TailNotFound => "tail not found"@,
        }
    }

    /// Describes the error for a log line or a response body.
    pub fn message(&self) -> (r: String)
        ensures
            r@ == self.text(),
    {
        match self {
            AppError::Pool(m) => prefixed("database connection pool error: ", m.as_str()),
            AppError::Interaction(m) => prefixed("database interaction error: ", m.as_str()),
            AppError::Sqlite(m) => prefixed("sqlite error: ", m.as_str()),
            AppError::IO(m) => prefixed("io error: ", m.as_str()),
            AppError::Multipart(_) => String::from_str("multipart error"),
            AppError::RequestError(f) => {
                let inner = f.message();
                prefixed("request error: ", inner.as_str())
            },
            AppError::MagicError(m) => prefixed("magic error: ", m.as_str()),
            AppError::NoFileUploaded => String::from_str("no file uploaded"),
            AppError::FieldHasNoName => String::from_str("field has no name"),
            AppError::LenParseError(m) => m.clone(),
            AppError::ExpiresParseError(m) => m.clone(),
            AppError::ConfigParseError(m) => m.clone(),
            AppError::FileTooLarge => String::from_str("file too large"),
            AppError::TailDrained => String::from_str("tail drained"),
            AppError::TailNotFound => String::from_str("tail not found"),
        }
    }
}

} // verus!
