//! An authenticating, rate-limited forwarding gateway in front of a
//! third-party weather data service.
//!
//! The library holds the gateway request pipeline: credential verification,
//! rate-limit accounting, upstream URL construction, and translation of the
//! upstream response into typed records or a normalized error. The HTTP
//! server, the network calls themselves, and process configuration live in
//! the surrounding application.

pub mod credential;
pub mod errors;
pub mod pipeline;
pub mod query;
pub mod rate_limiter;
pub mod translate;
pub mod upstream;

pub use credential::ApiKey;
pub use errors::ErrorResponse;
pub use errors::GatewayError;
pub use pipeline::finish_forecast;
pub use pipeline::finish_locations;
pub use pipeline::health_handler;
pub use pipeline::prepare_forecast;
pub use pipeline::prepare_locations;
pub use query::ForecastQuery;
pub use query::LocationQuery;
pub use rate_limiter::RateLimiter;
pub use translate::AstroDay;
pub use translate::Condition;
pub use translate::ForecastRecord;
pub use translate::LocationRecord;
pub use upstream::UpstreamResult;
