[package]
name = "reth_crawler"
version = "0.1.0"
edition = "2021"
publish = false

[dependencies]
lru = { version = "=0.18.5", default-features = false }
chrono = "*"
tokio = { version = "*", features = ["full"] }
futures = "*"
eyre = "*"
tracing = "*"
tracing-subscriber = "*"
ipgeolocate = "*"
axum = "*"
serde = { version = "*", features = ["derive"] }
