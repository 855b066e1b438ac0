[package]
name = "weather_proxy"
version = "0.1.0"
edition = "2021"
publish = false

[dependencies]
constant_time_eq = "*"
serde_json = "1"
serde = { version = "1", features = ["derive"] }
reqwest = { version = "0.12", default-features = false }
rocket = { version = "0.5", features = ["json"] }
rocket_cors = "0.6"
tokio = { version = "1", features = ["sync", "rt-multi-thread", "macros"] }
dotenv = "0.15"
tracing = "0.1"
tracing-subscriber = "0.3"
