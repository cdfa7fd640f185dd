//! Errors the client core reports.

use vstd::prelude::*;
use vstd::string::StringExecFns;
use crate::text::{decimal_text, push_decimal};

verus! {

/// Why a request could not be made, or how the service refused it.
#[derive(Debug, Clone, Copy, PartialEq, Eq, Structural)]
pub enum HibpError {
    /// The hash prefix of a range query was not exactly five characters long.
    InvalidHashPrefix,
    /// The API key or the user agent cannot be sent as a header's value.
    InvalidHeaderValue,
    /// A rate limit of zero or fewer requests per minute was asked for.
    InvalidRateLimit,
    /// The service knows no breach of the requested name.
    NotFound,
    /// The service answered with a status code that is neither a success nor tolerated.
    Status(u16),
}

impl HibpError {
    /// Whether the error was found in the caller's input, before anything was sent.
    pub open spec fn is_validation(self) -> bool {
        self == HibpError::InvalidHashPrefix || self == HibpError::InvalidHeaderValue || self
            == HibpError::InvalidRateLimit
    }

    /// The text that describes the error; for a refused status it ends in the
    /// status code.
    pub open spec fn spec_message(self) -> Seq<char> {
        match self {
            HibpError::InvalidHashPrefix => "Hash prefix must be exactly 5 characters"@,
            HibpError::InvalidHeaderValue => "failed to parse header value"@,
            HibpError::InvalidRateLimit => "Rate limit must be at least 1 request per minute"@,
            HibpError::NotFound => "Breach not found"@,
            HibpError::Status(status) => "API request failed with status: "@ + decimal_text(
                status as nat,
            ),
        }
    }

    /// The text that describes the error.
    pub fn message(&self) -> (text: String)
        ensures
            text@ == self.spec_message(),
    {
        match self {
            HibpError::InvalidHashPrefix => String::from_str(
                "Hash prefix must be exactly 5 characters",
            ),
            HibpError::InvalidHeaderValue => String::from_str("failed to parse header value"),
            HibpError::InvalidRateLimit => String::from_str(
                "Rate limit must be at least 1 request per minute",
            ),
            HibpError::NotFound => String::from_str("Breach not found"),
            HibpError::Status(status) => {
                let mut text = String::from_str("API request failed with status: ");
                push_decimal(&mut text, *status as u64);
                text
            },
        }
    }
}

} // verus!
