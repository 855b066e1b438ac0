//! The closed set of gateway failures and their mapping to a protocol-level
//! status and caller-visible message.
//!
//! Every fallible stage of the pipeline returns one of these variants; the
//! boundary layer renders each exactly once. Diagnostic detail stays
//! server-side; the message carried here is the short, non-sensitive summary
//! shown to the caller.

use vstd::prelude::*;

verus! {

/// A failure of one pipeline stage.
///
/// `BadRequest`, `UpstreamUnavailable` and `UpstreamError` carry the
/// caller-visible message; `Unauthorized` and `RateLimited` render to a
/// fixed message.
#[derive(Debug)]
pub enum GatewayError {
    /// Caller input malformed; carries the reason shown to the caller.
    BadRequest(String),
    /// Credential absent or wrong.
    Unauthorized,
    /// Per-key quota exhausted for the current window.
    RateLimited,
    /// Transport-level failure reaching the provider; carries the summary message.
    UpstreamUnavailable(String),
    /// Provider returned an error status or an unparsable body; carries the summary message.
    UpstreamError(String),
}

/// The JSON error body emitted to the caller on any failure.
pub struct ErrorResponse {
    pub error: String,
}

impl GatewayError {
    /// The HTTP status analogue of this variant.
    pub open spec fn spec_status_code(&self) -> u16 {
        match self {
            GatewayError::BadRequest(_) => 400,
            GatewayError::Unauthorized => 401,
            GatewayError::RateLimited => 429,
            GatewayError::UpstreamUnavailable(_) => 502,
            GatewayError::UpstreamError(_) => 502,
        }
    }

    /// The caller-visible message of this variant.
    pub open spec fn spec_message(&self) -> Seq<char> {
        match self {
            GatewayError::BadRequest(reason) => reason@,
            GatewayError::Unauthorized => "Unauthorized"@,
            GatewayError::RateLimited => "Rate limit exceeded"@,
            GatewayError::UpstreamUnavailable(detail) => detail@,
            GatewayError::UpstreamError(detail) => detail@,
        }
    }

    pub fn status_code(&self) -> (s: u16)
        ensures
            s == self.spec_status_code(),
    {
        match self {
            GatewayError::BadRequest(_) => 400,
            GatewayError::Unauthorized => 401,
            GatewayError::RateLimited => 429,
            GatewayError::UpstreamUnavailable(_) => 502,
            GatewayError::UpstreamError(_) => 502,
        }
    }

    pub fn message(&self) -> (m: String)
        ensures
            m@ == self.spec_message(),
    {
        match self {
            GatewayError::BadRequest(reason) => reason.clone(),
            GatewayError::Unauthorized => String::from_str("Unauthorized"),
            GatewayError::RateLimited => String::from_str("Rate limit exceeded"),
            GatewayError::UpstreamUnavailable(detail) => detail.clone(),
            GatewayError::UpstreamError(detail) => detail.clone(),
        }
    }

    /// Renders this failure as the pair the boundary layer emits: the status
    /// analogue and the JSON error body.
    pub fn to_response(&self) -> (r: (u16, ErrorResponse))
        ensures
            r.0 == self.spec_status_code(),
            r.1.error@ == self.spec_message(),
    {
        (self.status_code(), ErrorResponse { error: self.message() })
    }
}

} // verus!
