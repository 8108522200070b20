[package]
name = "north_pole"
version = "0.1.0"
edition = "2021"
publish = false

[dependencies]
rand = "=0.8.8"
axum = { version = "=0.7.9", features = ["multipart"] }
tokio = { version = "=1.53.2", features = ["rt-multi-thread", "macros"] }
serde = { version = "=1.0.229", features = ["derive"] }
serde_json = "=1.0.151"
serde_yaml = "=0.9.34"
toml = "=0.8.23"
cargo-manifest = "=0.21.0"
jsonwebtoken = "=9.3.1"
sqlx = { version = "=0.8.6", features = ["postgres", "runtime-tokio", "chrono", "uuid"] }
uuid = { version = "=1.27.0", features = ["serde", "v4"] }
chrono = { version = "=0.4.45", features = ["serde"] }
