//! Credential extraction and validation.
//!
//! The caller's token comes from a dedicated header first, then from the
//! standard authorization header; a leading `"Bearer "` is stripped from
//! whichever value was found. The comparison against the configured secret
//! is delegated, byte for byte, to a constant-time primitive whose cost does
//! not depend on the position of a mismatch, so the equality result is the
//! only information a caller can learn from timing (apart from a length
//! difference, which terminates no earlier than the result itself reveals).

use vstd::prelude::*;
use vstd::slice::slice_subrange;
use vstd::string::StringSliceAdditionalSpecFns;

use crate::errors::GatewayError;

verus! {

/// Witness that a request presented the configured secret.
pub struct ApiKey;

/// The bytes of the literal prefix `"Bearer "`.
pub open spec fn spec_bearer_prefix() -> Seq<u8> {
    seq![66u8, 101u8, 97u8, 114u8, 101u8, 114u8, 32u8]
}

/// A presented header value with a leading `"Bearer "` stripped; any other
/// value passes through unchanged.
pub open spec fn spec_strip_bearer(t: Seq<u8>) -> Seq<u8> {
    if t.len() >= 7 && t.subrange(0, 7) == spec_bearer_prefix() {
        t.subrange(7, t.len() as int)
    } else {
        t
    }
}

/// The bytes of an optional header value.
pub open spec fn spec_opt_bytes(o: Option<&str>) -> Option<Seq<u8>> {
    match o {
        Some(s) => Some(s.spec_bytes()),
        None => None,
    }
}

/// The token a request presents: the dedicated header if present, else the
/// authorization header, either one with a leading `"Bearer "` stripped.
pub open spec fn spec_extract_token(
    x_api_key: Option<Seq<u8>>,
    authorization: Option<Seq<u8>>,
) -> Option<Seq<u8>> {
    match x_api_key {
        Some(t) => Some(spec_strip_bearer(t)),
        None => match authorization {
            Some(t) => Some(spec_strip_bearer(t)),
            None => None,
        },
    }
}

/// Whether a request's headers carry a token that equals the configured
/// secret byte for byte.
pub open spec fn spec_authorized(
    x_api_key: Option<Seq<u8>>,
    authorization: Option<Seq<u8>>,
    expected: Seq<u8>,
) -> bool {
    match spec_extract_token(x_api_key, authorization) {
        Some(t) => t == expected,
        None => false,
    }
}

/// Relies on constant_time_eq::constant_time_eq: returns whether the two
/// byte strings are equal, in time that depends on neither the contents nor
/// the position of any difference (only on the lengths).
#[verifier::external_body]
fn ct_eq(a: &[u8], b: &[u8]) -> (r: bool)
    ensures
        r == (a@ == b@),
{
    constant_time_eq::constant_time_eq(a, b)
}

fn has_bearer_prefix(t: &[u8]) -> (b: bool)
    ensures
        b == (t@.len() >= 7 && t@.subrange(0, 7) == spec_bearer_prefix()),
{
    if t.len() < 7 {
        false
    } else {
        let b = *vstd::slice::slice_index_get(t, 0) == 66 && *vstd::slice::slice_index_get(t, 1)
            == 101 && *vstd::slice::slice_index_get(t, 2) == 97 && *vstd::slice::slice_index_get(
            t,
            3,
        ) == 114 && *vstd::slice::slice_index_get(t, 4) == 101 && *vstd::slice::slice_index_get(
            t,
            5,
        ) == 114 && *vstd::slice::slice_index_get(t, 6) == 32;
        proof {
            if b {
                assert(t@.subrange(0, 7) =~= spec_bearer_prefix());
            }
            if t@.subrange(0, 7) == spec_bearer_prefix() {
                assert forall|j: int| 0 <= j < 7 implies t@[j] == spec_bearer_prefix()[j] by {
                    assert(t@.subrange(0, 7)[j] == t@[j]);
                }
            }
        }
        b
    }
}

fn strip_bearer<'a>(t: &'a [u8]) -> (r: &'a [u8])
    ensures
        r@ == spec_strip_bearer(t@),
{
    if has_bearer_prefix(t) {
        slice_subrange(t, 7, t.len())
    } else {
        t
    }
}

/// Picks the presented token out of the two headers, stripping a leading
/// `"Bearer "`.
pub fn extract_token<'a>(x_api_key: Option<&'a str>, authorization: Option<&'a str>) -> (t: Option<
    &'a [u8],
>)
    ensures
        match t {
            Some(b) => spec_extract_token(
                spec_opt_bytes(x_api_key),
                spec_opt_bytes(authorization),
            ) == Some(b@),
            None => spec_extract_token(spec_opt_bytes(x_api_key), spec_opt_bytes(authorization))
                is None,
        },
{
    match x_api_key {
        Some(s) => Some(strip_bearer(s.as_bytes())),
        None => match authorization {
            Some(s) => Some(strip_bearer(s.as_bytes())),
            None => None,
        },
    }
}

impl ApiKey {
    /// Extracts the presented token and compares it against the configured
    /// secret. Succeeds exactly when a token was presented and equals the
    /// secret byte for byte; the comparison goes through the constant-time
    /// primitive and never short-circuits on inequality.
    pub fn extract_and_validate(
        x_api_key: Option<&str>,
        authorization: Option<&str>,
        expected: &str,
    ) -> (r: Result<ApiKey, GatewayError>)
        ensures
            r is Ok <==> spec_authorized(
                spec_opt_bytes(x_api_key),
                spec_opt_bytes(authorization),
                expected.spec_bytes(),
            ),
            r matches Err(e) ==> e is Unauthorized,
    {
        match extract_token(x_api_key, authorization) {
            Some(token) => {
                if ct_eq(token, expected.as_bytes()) {
                    Ok(ApiKey)
                } else {
                    Err(GatewayError::Unauthorized)
                }
            },
            None => Err(GatewayError::Unauthorized),
        }
    }
}

} // verus!
