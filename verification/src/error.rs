//! Error types for the `TopStats` SDK.

use crate::binary64::Binary64;
use vstd::prelude::*;

verus! {

/// A specialized Result type for `TopStats` operations.
pub type Result<T> = core::result::Result<T, Error>;

/// The main error type for the `TopStats` SDK.
#[derive(Debug)]
#[non_exhaustive]
pub enum Error {
    /// The API returned a rate limit response.
    /// Contains the number of seconds until the rate limit expires.
    RateLimited {
        /// Seconds until the rate limit expires.
        retry_after: Binary64,
        /// The error message from the API.
        message: String,
    },
    /// The requested resource was not found.
    NotFound {
        /// The error message from the API.
        message: String,
    },
    /// The request was forbidden (e.g., banned from the API).
    Forbidden {
        /// The error message from the API.
        message: String,
    },
    /// An HTTP error occurred.
    Http {
        /// The HTTP status code.
        status: u16,
        /// The error message.
        message: String,
    },
    /// A network or connection error occurred.
    Network(String),
    /// Failed to parse the API response (the decoder's description of the failure).
    Parse(String),
    /// Invalid configuration or input.
    InvalidInput(String),
    /// Invalid Discord bot ID format.
    InvalidBotId(String),
    /// Invalid Discord user ID format.
    InvalidUserId(String),
    /// The API token is missing or invalid.
    InvalidToken,
}

impl Error {
    /// Returns `true` if this error is a rate limit error.
    pub fn is_rate_limited(&self) -> (res: bool)
        ensures
            res == (self is RateLimited),
    {
        match self {
            Error::RateLimited { .. } => true,
            _ => false,
        }
    }

    /// Returns `true` if this error is a not found error.
    pub fn is_not_found(&self) -> (res: bool)
        ensures
            res == (self is NotFound),
    {
        match self {
            Error::NotFound { .. } => true,
            _ => false,
        }
    }

    /// Returns the retry-after duration in seconds if this is a rate limit error.
    pub fn retry_after(&self) -> (res: Option<Binary64>)
        ensures
            res == (match self {
                Error::RateLimited { retry_after, .. } => Some(*retry_after),
                _ => None,
            }),
    {
        match self {
            Error::RateLimited { retry_after, .. } => Some(*retry_after),
            _ => None,
        }
    }
}

/// API error response structure from the `TopStats` API.
pub struct ApiErrorResponse {
    /// The status code that the API reports.
    pub code: u16,
    /// The API's message.
    pub message: String,
    /// Seconds until a rate limit expires, where the API gives it.
    pub expires_in: Option<Binary64>,
}

/// The error that an API error response stands for: 429 is a rate limit (its
/// delay defaults to zero seconds), 404 not found, 403 forbidden, and any other
/// code an HTTP error with that status.
pub open spec fn api_error(response: ApiErrorResponse) -> Error {
    if response.code == 429 {
        Error::RateLimited {
            retry_after: match response.expires_in {
                Some(e) => e,
                None => Binary64 { bits: 0 },
            },
            message: response.message,
        }
    } else if response.code == 404 {
        Error::NotFound { message: response.message }
    } else if response.code == 403 {
        Error::Forbidden { message: response.message }
    } else {
        Error::Http { status: response.code, message: response.message }
    }
}

impl From<ApiErrorResponse> for Error {
    fn from(response: ApiErrorResponse) -> (res: Self) {
        match response.code {
            429 => Error::RateLimited {
                retry_after: match response.expires_in {
                    Some(e) => e,
                    None => Binary64::zero(),
                },
                message: response.message,
            },
            404 => Error::NotFound { message: response.message },
            403 => Error::Forbidden { message: response.message },
            status => Error::Http { status, message: response.message },
        }
    }
}

impl vstd::std_specs::convert::FromSpecImpl<ApiErrorResponse> for Error {
    open spec fn obeys_from_spec() -> bool {
        true
    }

    open spec fn from_spec(response: ApiErrorResponse) -> Error {
        api_error(response)
    }
}

/// What a rate-limit response is answered with: the error that comes out of an
/// API error response is a rate limit exactly when its code is 429, a not-found
/// exactly when it is 404, and its retry delay is the response's `expiresIn`
/// (zero seconds when absent).
pub proof fn law_api_error_classification(response: ApiErrorResponse)
    ensures
        (api_error(response) is RateLimited) <==> response.code == 429,
        (api_error(response) is NotFound) <==> response.code == 404,
        response.code == 429 ==> api_error(response)->retry_after == (match response.expires_in {
            Some(e) => e,
            None => Binary64 { bits: 0 },
        }),
{
}

/// Each status code becomes its own error, keeping the response's message: 429 a
/// rate limit whose delay is the response's `expiresIn` (zero seconds when absent),
/// 404 not found, 403 forbidden, and every other code an HTTP error with exactly
/// that code as its status.
pub proof fn law_api_error_statuses(response: ApiErrorResponse)
    ensures
        response.code == 429 ==> api_error(response) == (Error::RateLimited {
            retry_after: match response.expires_in {
                Some(e) => e,
                None => Binary64 { bits: 0 },
            },
            message: response.message,
        }),
        response.code == 404 ==> api_error(response) == (Error::NotFound {
            message: response.message,
        }),
        response.code == 403 ==> api_error(response) == (Error::Forbidden {
            message: response.message,
        }),
        response.code != 429 && response.code != 404 && response.code != 403 ==> api_error(
            response,
        ) == (Error::Http { status: response.code, message: response.message }),
{
}

} // verus!
