//! The failure taxonomy of the logtime pipeline.

use vstd::prelude::*;

verus! {

/// Everything that can go wrong while computing logtime.
///
/// `InvalidDateFormat` is raised before any network access, for a
/// configured date string that breaks the `YYYY-MM-DD` pattern.
/// `AuthenticationFailed` carries the HTTP status of a rejected
/// credential exchange or of a 401 met later (an unusable token);
/// it is fatal for the whole run. `UnknownLogin` records a login the
/// API resolved to no user; it is recoverable per login.
/// `TransportError` is any other non-2xx HTTP outcome.
/// `MalformedResponse` marks a response body whose shape the tool
/// cannot interpret, and is fatal.
#[derive(Debug, Clone, PartialEq, Eq)]
pub enum LogtimeError {
    InvalidDateFormat,
    AuthenticationFailed { status: u16 },
    UnknownLogin { login: String },
    TransportError { status: u16 },
    MalformedResponse,
}

/// The diagnostic line for an error.
pub open spec fn spec_message(e: LogtimeError) -> Seq<char> {
    match e {
        LogtimeError::InvalidDateFormat => "Bad date format: date format must be YYYY-MM-DD"@,
        LogtimeError::AuthenticationFailed { status } => "Authentication failed: HTTP "@
            + crate::text::spec_dec_digits(status as int),
        LogtimeError::UnknownLogin { login } => "Bad login: "@ + login@,
        LogtimeError::TransportError { status } => "HTTP error "@ + crate::text::spec_dec_digits(
            status as int,
        ),
        LogtimeError::MalformedResponse => "Malformed API response"@,
    }
}

impl LogtimeError {
    /// Renders the diagnostic line for this error.
    pub fn message(&self) -> (r: String)
        ensures
            r@ == spec_message(*self),
    {
        match self {
            LogtimeError::InvalidDateFormat => String::from_str(
                "Bad date format: date format must be YYYY-MM-DD",
            ),
            LogtimeError::AuthenticationFailed { status } => {
                let mut s = String::from_str("Authentication failed: HTTP ");
                s.append(crate::text::u64_string(*status as u64).as_str());
                s
            },
            LogtimeError::UnknownLogin { login } => {
                let mut s = String::from_str("Bad login: ");
                s.append(login.as_str());
                s
            },
            LogtimeError::TransportError { status } => {
                let mut s = String::from_str("HTTP error ");
                s.append(crate::text::u64_string(*status as u64).as_str());
                s
            },
            LogtimeError::MalformedResponse => String::from_str("Malformed API response"),
        }
    }
}

} // verus!
