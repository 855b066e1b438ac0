//! The per-request pipeline: credential check, parameter validation,
//! rate-limit check, upstream URL construction, and translation of the
//! upstream outcome — in that order, short-circuiting at the first failure.
//!
//! The surrounding application performs the one HTTP GET between the
//! `prepare` and `finish` halves and hands the outcome back as an
//! [`UpstreamResult`]; everything decided about a request is decided here.

use vstd::prelude::*;
use vstd::string::StringSliceAdditionalSpecFns;

use crate::credential::ApiKey;
use crate::credential::spec_authorized;
use crate::credential::spec_opt_bytes;
use crate::errors::GatewayError;
use crate::query::ForecastQuery;
use crate::query::LocationQuery;
use crate::query::spec_clamp_days;
use crate::rate_limiter::RateLimiter;
use crate::rate_limiter::spec_step;
use crate::translate::ForecastRecord;
use crate::translate::LocationRecord;
use crate::translate::spec_entry_field;
use crate::translate::spec_forecast_days;
use crate::translate::spec_forecast_err_prefix;
use crate::translate::spec_forecast_name;
use crate::translate::spec_forecast_ok;
use crate::translate::spec_has_prefix;
use crate::translate::spec_json_doc;
use crate::translate::spec_location_err_prefix;
use crate::translate::spec_locations_entries;
use crate::translate::spec_locations_ok;
use crate::translate::translate_forecast;
use crate::translate::translate_locations;
use crate::upstream::UpstreamResult;
use crate::upstream::build_forecast_url;
use crate::upstream::build_search_url;
use crate::upstream::spec_forecast_url;
use crate::upstream::spec_search_url;

verus! {

/// The health probe: no authentication, no parameters, a fixed body.
pub fn health_handler() -> (r: &'static str)
    ensures
        r@ == "OK"@,
{
    "OK"
}

/// Runs the request-side stages of a forecast request, in pipeline order:
/// credential first, then parameter validation, then the rate limit. On
/// success the forecast URL for the upstream call is returned; no upstream
/// call can be attempted when any stage fails, since only this function
/// yields the URL.
pub fn prepare_forecast(
    x_api_key: Option<&str>,
    authorization: Option<&str>,
    proxy_api_key: &str,
    city: &str,
    days: Option<u32>,
    limiter: &mut RateLimiter,
    rate_key: &str,
    now: u64,
    weather_api_key: &str,
) -> (r: Result<String, GatewayError>)
    requires
        old(limiter).wf(),
    ensures
        final(limiter).wf(),
        final(limiter).spec_limit() == old(limiter).spec_limit(),
        final(limiter).spec_window() == old(limiter).spec_window(),
        !spec_authorized(
            spec_opt_bytes(x_api_key),
            spec_opt_bytes(authorization),
            proxy_api_key.spec_bytes(),
        ) ==> (r matches Err(e) && e is Unauthorized && final(limiter)@ == old(limiter)@),
        spec_authorized(
            spec_opt_bytes(x_api_key),
            spec_opt_bytes(authorization),
            proxy_api_key.spec_bytes(),
        ) && city@.len() == 0 ==> (r matches Err(e) && e matches GatewayError::BadRequest(m) && m@
            == "City parameter is required"@ && final(limiter)@ == old(limiter)@),
        spec_authorized(
            spec_opt_bytes(x_api_key),
            spec_opt_bytes(authorization),
            proxy_api_key.spec_bytes(),
        ) && city@.len() > 0 ==> ({
            let st = spec_step(
                old(limiter)@,
                old(limiter).spec_limit(),
                old(limiter).spec_window(),
                rate_key@,
                now,
            );
            &&& final(limiter)@ == st.0
            &&& (st.1 ==> (r matches Ok(u) && u@ == spec_forecast_url(
                weather_api_key@,
                city@,
                spec_clamp_days(days),
            )))
            &&& (!st.1 ==> (r matches Err(e) && e is RateLimited))
        }),
{
    if let Err(e) = ApiKey::extract_and_validate(x_api_key, authorization, proxy_api_key) {
        return Err(e);
    }
    let q = match ForecastQuery::new(city.to_owned(), days) {
        Ok(q) => q,
        Err(e) => {
            return Err(e);
        },
    };
    if let Err(e) = limiter.check(rate_key, now) {
        return Err(e);
    }
    Ok(build_forecast_url(weather_api_key, q.city.as_str(), q.days))
}

/// Runs the request-side stages of a location-search request, in the same
/// order as [`prepare_forecast`]; on success the search URL is returned.
pub fn prepare_locations(
    x_api_key: Option<&str>,
    authorization: Option<&str>,
    proxy_api_key: &str,
    query: &str,
    limiter: &mut RateLimiter,
    rate_key: &str,
    now: u64,
    weather_api_key: &str,
) -> (r: Result<String, GatewayError>)
    requires
        old(limiter).wf(),
    ensures
        final(limiter).wf(),
        final(limiter).spec_limit() == old(limiter).spec_limit(),
        final(limiter).spec_window() == old(limiter).spec_window(),
        !spec_authorized(
            spec_opt_bytes(x_api_key),
            spec_opt_bytes(authorization),
            proxy_api_key.spec_bytes(),
        ) ==> (r matches Err(e) && e is Unauthorized && final(limiter)@ == old(limiter)@),
        spec_authorized(
            spec_opt_bytes(x_api_key),
            spec_opt_bytes(authorization),
            proxy_api_key.spec_bytes(),
        ) && query@.len() == 0 ==> (r matches Err(e) && e matches GatewayError::BadRequest(m) && m@
            == "Query parameter is required"@ && final(limiter)@ == old(limiter)@),
        spec_authorized(
            spec_opt_bytes(x_api_key),
            spec_opt_bytes(authorization),
            proxy_api_key.spec_bytes(),
        ) && query@.len() > 0 ==> ({
            let st = spec_step(
                old(limiter)@,
                old(limiter).spec_limit(),
                old(limiter).spec_window(),
                rate_key@,
                now,
            );
            &&& final(limiter)@ == st.0
            &&& (st.1 ==> (r matches Ok(u) && u@ == spec_search_url(weather_api_key@, query@)))
            &&& (!st.1 ==> (r matches Err(e) && e is RateLimited))
        }),
{
    if let Err(e) = ApiKey::extract_and_validate(x_api_key, authorization, proxy_api_key) {
        return Err(e);
    }
    let q = match LocationQuery::new(query.to_owned()) {
        Ok(q) => q,
        Err(e) => {
            return Err(e);
        },
    };
    if let Err(e) = limiter.check(rate_key, now) {
        return Err(e);
    }
    Ok(build_search_url(weather_api_key, q.query.as_str()))
}

/// Turns the outcome of the forecast upstream call into the response:
/// transport failure becomes `UpstreamUnavailable` with a fixed message, a
/// non-2xx status becomes `UpstreamError` carrying the upstream body in its
/// message, and a 2xx body goes to the translator.
pub fn finish_forecast(outcome: UpstreamResult) -> (r: Result<ForecastRecord, GatewayError>)
    ensures
        ({
            match outcome {
                UpstreamResult::TransportFailure { .. } => r matches Err(e) && e matches
                    GatewayError::UpstreamUnavailable(m) && m@ == "Failed to fetch weather data"@,
                UpstreamResult::Success { status, body } => {
                    if 200 <= status && status < 300 {
                        &&& (r is Ok <==> spec_forecast_ok(spec_json_doc(body@)))
                        &&& (r matches Ok(rec) ==> rec.raw@ == body@ && Some(rec.location_name@)
                            == spec_forecast_name(spec_json_doc(body@)) && Some(
                            rec.forecast_days as int,
                        ) == spec_forecast_days(spec_json_doc(body@)))
                        &&& (r matches Err(e) ==> e matches GatewayError::UpstreamError(m)
                            && spec_has_prefix(m@, spec_forecast_err_prefix()))
                    } else {
                        r matches Err(e) && e matches GatewayError::UpstreamError(m) && m@
                            == "Weather service error: "@ + body@
                    }
                },
            }
        }),
{
    match outcome {
        UpstreamResult::TransportFailure { detail: _ } => Err(
            GatewayError::UpstreamUnavailable(String::from_str("Failed to fetch weather data")),
        ),
        UpstreamResult::Success { status, body } => {
            if status < 200 || status >= 300 {
                Err(
                    GatewayError::UpstreamError(
                        String::from_str("Weather service error: ").concat(body.as_str()),
                    ),
                )
            } else {
                translate_forecast(body.as_str())
            }
        },
    }
}

/// Turns the outcome of the location-search upstream call into the
/// response, exactly as [`finish_forecast`] does for its endpoint.
pub fn finish_locations(outcome: UpstreamResult) -> (r: Result<Vec<LocationRecord>, GatewayError>)
    ensures
        ({
            match outcome {
                UpstreamResult::TransportFailure { .. } => r matches Err(e) && e matches
                    GatewayError::UpstreamUnavailable(m) && m@ == "Failed to search locations"@,
                UpstreamResult::Success { status, body } => {
                    if 200 <= status && status < 300 {
                        &&& (r is Ok <==> spec_locations_ok(spec_json_doc(body@)))
                        &&& (r matches Ok(records) ==> ({
                            match spec_locations_entries(spec_json_doc(body@)) {
                                Some(elems) => {
                                    &&& records@.len() == elems.len()
                                    &&& forall|i: int|
                                        0 <= i < elems.len() ==> {
                                            &&& Some(#[trigger] records@[i].name@)
                                                == spec_entry_field(elems[i], "name"@)
                                            &&& Some(records@[i].region@) == spec_entry_field(
                                                elems[i],
                                                "region"@,
                                            )
                                            &&& Some(records@[i].country@) == spec_entry_field(
                                                elems[i],
                                                "country"@,
                                            )
                                            &&& Some(records@[i].url@) == spec_entry_field(
                                                elems[i],
                                                "url"@,
                                            )
                                        }
                                },
                                None => false,
                            }
                        }))
                        &&& (r matches Err(e) ==> e matches GatewayError::UpstreamError(m)
                            && spec_has_prefix(m@, spec_location_err_prefix()))
                    } else {
                        r matches Err(e) && e matches GatewayError::UpstreamError(m) && m@
                            == "Location service error: "@ + body@
                    }
                },
            }
        }),
{
    match outcome {
        UpstreamResult::TransportFailure { detail: _ } => Err(
            GatewayError::UpstreamUnavailable(String::from_str("Failed to search locations")),
        ),
        UpstreamResult::Success { status, body } => {
            if status < 200 || status >= 300 {
                Err(
                    GatewayError::UpstreamError(
                        String::from_str("Location service error: ").concat(body.as_str()),
                    ),
                )
            } else {
                translate_locations(body.as_str())
            }
        },
    }
}

} // verus!
