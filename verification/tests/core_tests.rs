use weather_proxy::credential::ApiKey;
use weather_proxy::errors::GatewayError;
use weather_proxy::query::ForecastQuery;
use weather_proxy::query::LocationQuery;
use weather_proxy::query::clamp_days;
use weather_proxy::rate_limiter::RateLimiter;
use weather_proxy::upstream::build_forecast_url;
use weather_proxy::upstream::build_search_url;

#[test]
fn clamp_days_defaults_to_five_when_absent() {
    assert_eq!(clamp_days(None), 5);
}

#[test]
fn clamp_days_keeps_small_values_including_zero() {
    assert_eq!(clamp_days(Some(0)), 0);
    assert_eq!(clamp_days(Some(1)), 1);
    assert_eq!(clamp_days(Some(3)), 3);
}

#[test]
fn clamp_days_boundary_at_ten() {
    assert_eq!(clamp_days(Some(10)), 10);
    assert_eq!(clamp_days(Some(11)), 10);
    assert_eq!(clamp_days(Some(15)), 10);
}

#[test]
fn forecast_query_rejects_empty_city() {
    let r = ForecastQuery::new(String::new(), Some(3));
    match r {
        Err(GatewayError::BadRequest(m)) => assert_eq!(m, "City parameter is required"),
        _ => panic!("empty city must be a bad request"),
    }
}

#[test]
fn forecast_query_keeps_city_and_clamps_days() {
    let q = ForecastQuery::new("London".to_string(), Some(15)).unwrap();
    assert_eq!(q.city, "London");
    assert_eq!(q.days, 10);
}

#[test]
fn location_query_rejects_empty_query() {
    let r = LocationQuery::new(String::new());
    match r {
        Err(GatewayError::BadRequest(m)) => assert_eq!(m, "Query parameter is required"),
        _ => panic!("empty query must be a bad request"),
    }
}

#[test]
fn rate_limiter_allows_limit_then_rejects() {
    let mut limiter = RateLimiter::new(3, 60);
    assert!(limiter.check("default", 100).is_ok());
    assert!(limiter.check("default", 101).is_ok());
    assert!(limiter.check("default", 102).is_ok());
    let rejected = limiter.check("default", 103);
    assert!(matches!(rejected, Err(GatewayError::RateLimited)));
}

#[test]
fn rate_limiter_accepts_again_after_window_elapses() {
    let mut limiter = RateLimiter::new(2, 60);
    assert!(limiter.check("default", 0).is_ok());
    assert!(limiter.check("default", 1).is_ok());
    assert!(limiter.check("default", 2).is_err());
    // the window is anchored at the last accepted call (time 1)
    assert!(limiter.check("default", 61).is_ok());
}

#[test]
fn rate_limiter_window_rolls_with_accepted_calls() {
    let mut limiter = RateLimiter::new(2, 60);
    assert!(limiter.check("default", 0).is_ok());
    assert!(limiter.check("default", 50).is_ok());
    // 59 seconds after the last accepted call: entry still live, quota full
    assert!(limiter.check("default", 109).is_err());
    // 60 seconds after the last accepted call: entry expired
    assert!(limiter.check("default", 110).is_ok());
}

#[test]
fn rate_limiter_keys_are_independent() {
    let mut limiter = RateLimiter::new(1, 60);
    assert!(limiter.check("alpha", 10).is_ok());
    assert!(limiter.check("beta", 11).is_ok());
    assert!(limiter.check("alpha", 12).is_err());
}

#[test]
fn rate_limiter_limit_zero_rejects_first_call() {
    let mut limiter = RateLimiter::new(0, 60);
    assert!(limiter.check("default", 5).is_err());
}

#[test]
fn credential_accepts_exact_match_in_dedicated_header() {
    assert!(ApiKey::extract_and_validate(Some("topsecret"), None, "topsecret").is_ok());
}

#[test]
fn credential_rejects_mismatch_wherever_it_occurs() {
    // mismatch in the first byte and in the last byte are both rejected
    assert!(ApiKey::extract_and_validate(Some("Xecret"), None, "secret").is_err());
    assert!(ApiKey::extract_and_validate(Some("secreX"), None, "secret").is_err());
    // a proper prefix is not equal
    assert!(ApiKey::extract_and_validate(Some("secre"), None, "secret").is_err());
    assert!(ApiKey::extract_and_validate(Some("secrets"), None, "secret").is_err());
}

#[test]
fn credential_missing_is_unauthorized() {
    let r = ApiKey::extract_and_validate(None, None, "secret");
    assert!(matches!(r, Err(GatewayError::Unauthorized)));
}

#[test]
fn credential_accepts_bearer_authorization() {
    assert!(ApiKey::extract_and_validate(None, Some("Bearer secret"), "secret").is_ok());
}

#[test]
fn credential_accepts_bare_authorization() {
    assert!(ApiKey::extract_and_validate(None, Some("secret"), "secret").is_ok());
}

#[test]
fn credential_dedicated_header_takes_precedence() {
    assert!(ApiKey::extract_and_validate(Some("first"), Some("second"), "first").is_ok());
    assert!(ApiKey::extract_and_validate(Some("first"), Some("second"), "second").is_err());
}

#[test]
fn forecast_url_is_built_verbatim() {
    let url = build_forecast_url("k123", "London", 3);
    assert_eq!(
        url,
        "https://api.weatherapi.com/v1/forecast.json?key=k123&q=London&days=3&aqi=yes&alerts=no"
    );
}

#[test]
fn forecast_url_renders_ten_days() {
    let url = build_forecast_url("k", "Paris", 10);
    assert_eq!(
        url,
        "https://api.weatherapi.com/v1/forecast.json?key=k&q=Paris&days=10&aqi=yes&alerts=no"
    );
}

#[test]
fn search_url_is_built_verbatim() {
    let url = build_search_url("k123", "Lond");
    assert_eq!(url, "https://api.weatherapi.com/v1/search.json?key=k123&q=Lond");
}

#[test]
fn errors_map_to_status_and_message() {
    let (s, body) = GatewayError::BadRequest("City parameter is required".to_string())
        .to_response();
    assert_eq!(s, 400);
    assert_eq!(body.error, "City parameter is required");
    let (s, body) = GatewayError::Unauthorized.to_response();
    assert_eq!(s, 401);
    assert_eq!(body.error, "Unauthorized");
    let (s, body) = GatewayError::RateLimited.to_response();
    assert_eq!(s, 429);
    assert_eq!(body.error, "Rate limit exceeded");
    let (s, body) = GatewayError::UpstreamUnavailable("Failed to fetch weather data".to_string())
        .to_response();
    assert_eq!(s, 502);
    assert_eq!(body.error, "Failed to fetch weather data");
    let (s, _) = GatewayError::UpstreamError("detail".to_string()).to_response();
    assert_eq!(s, 502);
}
