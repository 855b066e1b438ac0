//! Construction of the upstream provider's URLs, and the shape of what an
//! upstream call yields.
//!
//! The gateway performs exactly one GET per request; the call itself is made
//! by the surrounding application, which hands the outcome back as an
//! [`UpstreamResult`].

use vstd::prelude::*;

verus! {

/// The outcome of one upstream HTTP call, as the application observed it.
pub enum UpstreamResult {
    /// The provider answered; the status is as received and the body is the
    /// raw response text. Whether the status counts as success is the
    /// pipeline's decision, not the caller's.
    Success { status: u16, body: String },
    /// The provider could not be reached (DNS, connection, TLS, timeout) or
    /// the body could not be read; carries the transport detail for
    /// server-side logging only.
    TransportFailure { detail: String },
}

/// The decimal rendering of a day count in [0, 10].
pub open spec fn spec_days_str(d: u32) -> Seq<char> {
    if d == 0 {
        "0"@
    } else if d == 1 {
        "1"@
    } else if d == 2 {
        "2"@
    } else if d == 3 {
        "3"@
    } else if d == 4 {
        "4"@
    } else if d == 5 {
        "5"@
    } else if d == 6 {
        "6"@
    } else if d == 7 {
        "7"@
    } else if d == 8 {
        "8"@
    } else if d == 9 {
        "9"@
    } else {
        "10"@
    }
}

fn days_str(d: u32) -> (s: &'static str)
    requires
        d <= 10,
    ensures
        s@ == spec_days_str(d),
{
    if d == 0 {
        "0"
    } else if d == 1 {
        "1"
    } else if d == 2 {
        "2"
    } else if d == 3 {
        "3"
    } else if d == 4 {
        "4"
    } else if d == 5 {
        "5"
    } else if d == 6 {
        "6"
    } else if d == 7 {
        "7"
    } else if d == 8 {
        "8"
    } else if d == 9 {
        "9"
    } else {
        "10"
    }
}

/// The forecast URL: provider endpoint, the provider secret, the city, the
/// day count, air quality on, alerts off.
pub open spec fn spec_forecast_url(key: Seq<char>, city: Seq<char>, days: u32) -> Seq<char> {
    "https://api.weatherapi.com/v1/forecast.json?key="@ + key + "&q="@ + city + "&days="@
        + spec_days_str(days) + "&aqi=yes&alerts=no"@
}

/// The location-search URL: provider endpoint, the provider secret, the
/// search string.
pub open spec fn spec_search_url(key: Seq<char>, query: Seq<char>) -> Seq<char> {
    "https://api.weatherapi.com/v1/search.json?key="@ + key + "&q="@ + query
}

/// Builds the forecast URL. The provider secret appears only here and in the
/// search URL; it is never part of any caller-visible message.
pub fn build_forecast_url(weather_api_key: &str, city: &str, days: u32) -> (u: String)
    requires
        days <= 10,
    ensures
        u@ == spec_forecast_url(weather_api_key@, city@, days),
{
    let u = String::from_str("https://api.weatherapi.com/v1/forecast.json?key=").concat(
        weather_api_key,
    ).concat("&q=").concat(city).concat("&days=").concat(days_str(days)).concat(
        "&aqi=yes&alerts=no",
    );
    u
}

/// Builds the location-search URL.
pub fn build_search_url(weather_api_key: &str, query: &str) -> (u: String)
    ensures
        u@ == spec_search_url(weather_api_key@, query@),
{
    let u = String::from_str("https://api.weatherapi.com/v1/search.json?key=").concat(
        weather_api_key,
    ).concat("&q=").concat(query);
    u
}

} // verus!
