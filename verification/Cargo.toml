[package]
name = "grid_trader"
version = "0.1.0"
edition = "2021"
publish = false

[dependencies]
anyhow = "=1.0.104"
async-trait = "=0.1.92"
axum = "=0.7.9"
bcrypt = "=0.15.1"
chrono = { version = "=0.4.45", features = ["serde"] }
dotenvy = "=0.15.7"
envy = "=0.4.2"
hex = "=0.4.3"
hmac = "=0.12.1"
jsonwebtoken = { version = "=9.3.1", default-features = false }
reqwest = { version = "=0.12.28", default-features = false, features = ["rustls-tls"] }
rust_decimal = { version = "=1.43.0", features = ["serde-with-str"] }
serde = { version = "=1.0.229", features = ["derive"] }
serde_json = { version = "=1.0.154", features = ["preserve_order", "raw_value"] }
sha2 = "=0.10.9"
sqlx = { version = "=0.8.6", default-features = false, features = ["runtime-tokio", "postgres", "rust_decimal", "chrono", "derive"] }
thiserror = "=1.0.69"
tokio = { version = "=1.54.1", features = ["full"] }
tower_governor = "=0.4.3"
tower-http = { version = "=0.6.11", features = ["fs"] }
tracing = "=0.1.44"
tracing-appender = "=0.2.5"
tracing-subscriber = { version = "=0.3.23", features = ["env-filter"] }
