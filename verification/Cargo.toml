[package]
name = "market_ingest"
version = "0.1.0"
edition = "2021"
publish = false

[dependencies]
chrono = "=0.4.45"
clickhouse = "=0.15.2"
sqlx = { version = "=0.7.4", default-features = false, features = ["runtime-tokio-rustls", "postgres"] }
tokio = { version = "=1.53.2", features = ["full"] }
tonic = "=0.14.6"
tonic-prost = "*"
prost = "=0.14.4"
prost-types = "=0.14.4"
serde = { version = "=1.0.229", features = ["derive"] }
axum = "=0.8.9"
tracing = "=0.1.44"
