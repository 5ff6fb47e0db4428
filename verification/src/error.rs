//! The failures a request can end in, and which of them are worth retrying.

use vstd::prelude::*;

verus! {

/// Declares `url::ParseError` so that it can be carried inside [`ApiError`].
#[verifier::external_type_specification]
#[verifier::external_body]
pub struct ExParseError(url::ParseError);

/// A failed request, by kind.
#[derive(Debug, PartialEq, Eq)]
pub enum ApiError {
    /// The transport could not complete the request.
    RequestFailed { message: String },
    /// The server answered 429; `retry_after` is in seconds.
    RateLimitExceeded { retry_after: u64 },
    /// The server answered 401.
    AuthenticationFailed { message: String },
    /// The server answered 404 for `resource`.
    NotFound { resource: String },
    /// The server answered 400.
    BadRequest { message: String },
    /// The server answered with a status that is neither a success nor one of the above.
    ServerError { status: u16, message: String },
    /// The request path could not be resolved against the base URL.
    InvalidUrl(url::ParseError),
    /// A request body could not be serialised.
    JsonError { message: String },
    /// The backoff schedule ran out after `attempts` attempts.
    Timeout { attempts: usize },
    /// A successful response carried a body that could not be decoded.
    InvalidResponse(String),
}

/// An [`ApiError`] with its texts as sequences of characters.
pub enum Failure {
    RequestFailed { message: Seq<char> },
    RateLimitExceeded { retry_after: u64 },
    AuthenticationFailed { message: Seq<char> },
    NotFound { resource: Seq<char> },
    BadRequest { message: Seq<char> },
    ServerError { status: u16, message: Seq<char> },
    InvalidUrl(url::ParseError),
    JsonError { message: Seq<char> },
    Timeout { attempts: usize },
    InvalidResponse(Seq<char>),
}

impl View for ApiError {
    type V = Failure;

    open spec fn view(&self) -> Failure {
        match *self {
            ApiError::RequestFailed { message } => Failure::RequestFailed { message: message@ },
            ApiError::RateLimitExceeded { retry_after } => Failure::RateLimitExceeded {
                retry_after,
            },
            ApiError::AuthenticationFailed { message } => Failure::AuthenticationFailed {
                message: message@,
            },
            ApiError::NotFound { resource } => Failure::NotFound { resource: resource@ },
            ApiError::BadRequest { message } => Failure::BadRequest { message: message@ },
            ApiError::ServerError { status, message } => Failure::ServerError {
                status,
                message: message@,
            },
            ApiError::InvalidUrl(e) => Failure::InvalidUrl(e),
            ApiError::JsonError { message } => Failure::JsonError { message: message@ },
            ApiError::Timeout { attempts } => Failure::Timeout { attempts },
            ApiError::InvalidResponse(message) => Failure::InvalidResponse(message@),
        }
    }
}

impl ApiError {
    /// Transient failures: rate limiting, a 5xx answer, and a timeout.
    pub open spec fn retryable(self) -> bool {
        match self {
            ApiError::RateLimitExceeded { .. } => true,
            ApiError::ServerError { status, .. } => 500 <= status <= 599,
            ApiError::Timeout { .. } => true,
            _ => false,
        }
    }

    /// Whether another attempt may succeed where this one failed.
    pub fn is_retryable(&self) -> (r: bool)
        ensures
            r == self.retryable(),
    {
        match self {
            ApiError::RateLimitExceeded { .. } => true,
            ApiError::ServerError { status, .. } => *status >= 500 && *status <= 599,
            ApiError::Timeout { .. } => true,
            _ => false,
        }
    }

    /// The hint shown to the user for this kind of failure, if it has one.
    pub open spec fn hint(self) -> Option<Seq<char>> {
        match self {
            ApiError::AuthenticationFailed { .. } => Some(
                "Verify your API token using: atlassiancli auth test"@,
            ),
            ApiError::RateLimitExceeded { .. } => Some(
                "Consider reducing request frequency or use bulk operations"@,
            ),
            ApiError::NotFound { .. } => Some("Check if the resource ID is correct"@),
            ApiError::BadRequest { .. } => Some("Review the request parameters"@),
            ApiError::Timeout { .. } => Some("Check your network connection or try again later"@),
            _ => None,
        }
    }

    /// A short actionable suggestion for the failure kinds that have one.
    pub fn suggestion(&self) -> (r: Option<&'static str>)
        ensures
            r is Some <==> self.hint() is Some,
            r matches Some(s) ==> Some(s@) == self.hint(),
    {
        match self {
            ApiError::AuthenticationFailed { .. } => Some(
                "Verify your API token using: atlassiancli auth test",
            ),
            ApiError::RateLimitExceeded { .. } => Some(
                "Consider reducing request frequency or use bulk operations",
            ),
            ApiError::NotFound { .. } => Some("Check if the resource ID is correct"),
            ApiError::BadRequest { .. } => Some("Review the request parameters"),
            ApiError::Timeout { .. } => Some("Check your network connection or try again later"),
            _ => None,
        }
    }
}

} // verus!
