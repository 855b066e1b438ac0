//! Validation of the caller's query parameters.
//!
//! A forecast query needs a non-empty city; the day count, when present, is
//! capped at 10 and defaults to 5 when absent (values above 10 are silently
//! capped, not rejected; 0 passes through unchanged). A location query needs
//! a non-empty search string.

use vstd::prelude::*;

use crate::errors::GatewayError;

verus! {

/// The day count the pipeline uses when the caller supplied `days`
/// (capped at 10) or did not (5).
pub open spec fn spec_clamp_days(days: Option<u32>) -> u32 {
    match days {
        None => 5,
        Some(n) => if n > 10 {
            10
        } else {
            n
        },
    }
}

/// Caps the requested day count at 10, defaulting to 5 when absent.
pub fn clamp_days(days: Option<u32>) -> (d: u32)
    ensures
        d == spec_clamp_days(days),
{
    match days {
        None => 5,
        Some(n) => if n > 10 {
            10
        } else {
            n
        },
    }
}

/// A validated forecast query: a non-empty city and a day count in range.
pub struct ForecastQuery {
    pub city: String,
    pub days: u32,
}

/// A validated location-search query: a non-empty search string.
pub struct LocationQuery {
    pub query: String,
}

impl ForecastQuery {
    /// Validates the caller's parameters: rejects an empty city with
    /// `BadRequest`, otherwise keeps the city verbatim and clamps the day
    /// count.
    pub fn new(city: String, days: Option<u32>) -> (r: Result<ForecastQuery, GatewayError>)
        ensures
            city@.len() == 0 <==> r is Err,
            r matches Err(e) ==> e matches GatewayError::BadRequest(m) && m@
                == "City parameter is required"@,
            r matches Ok(q) ==> q.city@ == city@ && q.days == spec_clamp_days(days) && q.days
                <= 10,
    {
        if city.as_str().is_empty() {
            Err(GatewayError::BadRequest(String::from_str("City parameter is required")))
        } else {
            Ok(ForecastQuery { city, days: clamp_days(days) })
        }
    }
}

impl LocationQuery {
    /// Validates the caller's parameters: rejects an empty search string
    /// with `BadRequest`, otherwise keeps it verbatim.
    pub fn new(query: String) -> (r: Result<LocationQuery, GatewayError>)
        ensures
            query@.len() == 0 <==> r is Err,
            r matches Err(e) ==> e matches GatewayError::BadRequest(m) && m@
                == "Query parameter is required"@,
            r matches Ok(q) ==> q.query@ == query@,
    {
        if query.as_str().is_empty() {
            Err(GatewayError::BadRequest(String::from_str("Query parameter is required")))
        } else {
            Ok(LocationQuery { query })
        }
    }
}

} // verus!
