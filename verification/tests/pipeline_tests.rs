use weather_proxy::errors::GatewayError;
use weather_proxy::pipeline::finish_forecast;
use weather_proxy::pipeline::finish_locations;
use weather_proxy::pipeline::health_handler;
use weather_proxy::pipeline::prepare_forecast;
use weather_proxy::pipeline::prepare_locations;
use weather_proxy::rate_limiter::RateLimiter;
use weather_proxy::translate::translate_forecast;
use weather_proxy::translate::translate_locations;
use weather_proxy::upstream::UpstreamResult;

#[test]
fn health_answers_ok() {
    assert_eq!(health_handler(), "OK");
}

fn three_day_body() -> String {
    "{\"location\":{\"name\":\"London\",\"country\":\"UK\",\"region\":\"City of London\"},\"current\":{\"temp_c\":11.5},\"forecast\":{\"forecastday\":[{\"date\":\"2024-01-01\"},{\"date\":\"2024-01-02\"},{\"date\":\"2024-01-03\"}]}}".to_string()
}

#[test]
fn translate_forecast_reads_three_day_document() {
    let rec = translate_forecast(&three_day_body()).unwrap();
    assert_eq!(rec.location_name, "London");
    assert_eq!(rec.forecast_days, 3);
    assert_eq!(rec.raw, three_day_body());
}

#[test]
fn translate_forecast_rejects_malformed_json() {
    let r = translate_forecast("{not json at all");
    match r {
        Err(GatewayError::UpstreamError(m)) => {
            assert!(m.starts_with("Invalid response from weather service: "));
        },
        _ => panic!("malformed JSON must be an upstream error"),
    }
}

#[test]
fn translate_forecast_rejects_missing_forecast() {
    let r = translate_forecast("{\"location\":{\"name\":\"London\"},\"current\":{}}");
    match r {
        Err(GatewayError::UpstreamError(m)) => {
            assert!(m.starts_with("Invalid response from weather service: "));
        },
        _ => panic!("a document without a forecast must be rejected"),
    }
}

#[test]
fn translate_locations_reads_entries_in_order() {
    let body = "[{\"name\":\"London\",\"region\":\"City of London\",\"country\":\"UK\",\"url\":\"london-uk\",\"id\":1,\"lat\":51.52,\"lon\":-0.11},{\"name\":\"Londonderry\",\"region\":\"Northern Ireland\",\"country\":\"UK\",\"url\":\"londonderry-uk\",\"id\":2,\"lat\":55.0,\"lon\":-7.32}]";
    let records = translate_locations(body).unwrap();
    assert_eq!(records.len(), 2);
    assert_eq!(records[0].name, "London");
    assert_eq!(records[0].url, "london-uk");
    assert_eq!(records[1].name, "Londonderry");
    assert_eq!(records[1].country, "UK");
}

#[test]
fn translate_locations_rejects_non_array() {
    let r = translate_locations("{\"name\":\"London\"}");
    match r {
        Err(GatewayError::UpstreamError(m)) => {
            assert!(m.starts_with("Invalid response from location service: "));
        },
        _ => panic!("a non-array search body must be rejected"),
    }
}

#[test]
fn upstream_status_error_maps_to_bad_gateway_not_original_status() {
    let outcome = UpstreamResult::Success {
        status: 400,
        body: "No matching location found.".to_string(),
    };
    let r = finish_forecast(outcome);
    match r {
        Err(e) => {
            let (status, body) = e.to_response();
            assert_eq!(status, 502);
            assert!(body.error.contains("No matching location found."));
            assert_eq!(body.error, "Weather service error: No matching location found.");
        },
        Ok(_) => panic!("a 400 upstream status must be an error"),
    }
}

#[test]
fn upstream_malformed_body_is_upstream_error() {
    let outcome = UpstreamResult::Success { status: 200, body: "<html>oops".to_string() };
    let r = finish_forecast(outcome);
    match r {
        Err(GatewayError::UpstreamError(m)) => {
            assert!(m.starts_with("Invalid response from weather service: "));
        },
        _ => panic!("a malformed upstream body must be an upstream error"),
    }
}

#[test]
fn upstream_transport_failure_is_unavailable() {
    let outcome = UpstreamResult::TransportFailure { detail: "connection refused".to_string() };
    let r = finish_forecast(outcome);
    match r {
        Err(e) => {
            let (status, body) = e.to_response();
            assert_eq!(status, 502);
            assert_eq!(body.error, "Failed to fetch weather data");
        },
        Ok(_) => panic!("a transport failure must be an error"),
    }
}

#[test]
fn finish_forecast_accepts_well_formed_success() {
    let outcome = UpstreamResult::Success { status: 200, body: three_day_body() };
    let rec = finish_forecast(outcome).unwrap();
    assert_eq!(rec.location_name, "London");
    assert_eq!(rec.forecast_days, 3);
}

#[test]
fn finish_locations_status_error_carries_body() {
    let outcome = UpstreamResult::Success { status: 500, body: "boom".to_string() };
    let r = finish_locations(outcome);
    match r {
        Err(GatewayError::UpstreamError(m)) => assert_eq!(m, "Location service error: boom"),
        _ => panic!("a 500 upstream status must be an error"),
    }
}

#[test]
fn finish_locations_transport_failure_message() {
    let outcome = UpstreamResult::TransportFailure { detail: "dns".to_string() };
    let r = finish_locations(outcome);
    match r {
        Err(GatewayError::UpstreamUnavailable(m)) => assert_eq!(m, "Failed to search locations"),
        _ => panic!("a transport failure must be unavailable"),
    }
}

#[test]
fn prepare_forecast_builds_url_for_valid_request() {
    let mut limiter = RateLimiter::new(100, 60);
    let url = prepare_forecast(
        Some("topsecret"),
        None,
        "topsecret",
        "London",
        Some(3),
        &mut limiter,
        "default",
        1000,
        "upkey",
    )
    .unwrap();
    assert_eq!(
        url,
        "https://api.weatherapi.com/v1/forecast.json?key=upkey&q=London&days=3&aqi=yes&alerts=no"
    );
}

#[test]
fn prepare_forecast_rejects_empty_city_before_any_upstream_work() {
    let mut limiter = RateLimiter::new(100, 60);
    let r = prepare_forecast(
        Some("s"),
        None,
        "s",
        "",
        None,
        &mut limiter,
        "default",
        1000,
        "upkey",
    );
    match r {
        Err(GatewayError::BadRequest(m)) => assert_eq!(m, "City parameter is required"),
        _ => panic!("an empty city must be rejected with a bad request"),
    }
    // the rejected request was not counted either
    for t in 0..100u64 {
        assert!(limiter.check("default", 1000 + t).is_ok());
    }
}

#[test]
fn prepare_forecast_rejects_bad_credential_before_validation() {
    let mut limiter = RateLimiter::new(100, 60);
    let r = prepare_forecast(
        Some("wrong"),
        None,
        "right",
        "",
        None,
        &mut limiter,
        "default",
        1000,
        "upkey",
    );
    assert!(matches!(r, Err(GatewayError::Unauthorized)));
}

#[test]
fn prepare_forecast_rate_limits_after_quota() {
    let mut limiter = RateLimiter::new(2, 60);
    for _ in 0..2 {
        assert!(
            prepare_forecast(
                Some("s"),
                None,
                "s",
                "London",
                None,
                &mut limiter,
                "default",
                1000,
                "k",
            )
            .is_ok()
        );
    }
    let r = prepare_forecast(
        Some("s"),
        None,
        "s",
        "London",
        None,
        &mut limiter,
        "default",
        1000,
        "k",
    );
    assert!(matches!(r, Err(GatewayError::RateLimited)));
}

#[test]
fn prepare_locations_builds_url_for_valid_request() {
    let mut limiter = RateLimiter::new(100, 60);
    let url = prepare_locations(
        None,
        Some("Bearer s"),
        "s",
        "Lond",
        &mut limiter,
        "default",
        1000,
        "upkey",
    )
    .unwrap();
    assert_eq!(url, "https://api.weatherapi.com/v1/search.json?key=upkey&q=Lond");
}

#[test]
fn prepare_locations_rejects_empty_query() {
    let mut limiter = RateLimiter::new(100, 60);
    let r = prepare_locations(
        Some("s"),
        None,
        "s",
        "",
        &mut limiter,
        "default",
        1000,
        "upkey",
    );
    match r {
        Err(GatewayError::BadRequest(m)) => assert_eq!(m, "Query parameter is required"),
        _ => panic!("an empty query must be rejected with a bad request"),
    }
}
