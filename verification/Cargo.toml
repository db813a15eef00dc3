[package]
name = "asset_ledger"
version = "0.1.0"
edition = "2021"
publish = false

[dependencies]
anyhow = "1"
axum = "0.8"
chrono = "0.4"
chrono-tz = "0.10"
rust_decimal = "1"
serde = { version = "1", features = ["derive"] }
sqlx = { version = "0.8", default-features = false, features = ["postgres", "runtime-tokio", "rust_decimal", "chrono", "derive"] }
tokio = { version = "1", features = ["full"] }
tower = "0.5"
validator = { version = "0.20", features = ["derive"] }
