[package]
name = "lehman_cousins_core"
version = "0.1.0"
edition = "2021"
publish = false

[dependencies]
rust_decimal = "1"
uuid = { version = "1", features = ["v4"] }
chrono = "0.4"
tokio = { version = "1", features = ["rt-multi-thread", "macros", "sync", "time", "signal"] }
hmac = "0.12"
sha2 = "0.10"
hex = "0.4"
dashmap = "5"
parking_lot = "0.12"
anyhow = "1"
thiserror = "1"
tracing = "0.1"
tracing-subscriber = { version = "0.3", features = ["env-filter", "json"] }
reqwest = { version = "0.11", default-features = false, features = ["rustls-tls"] }
tokio-tungstenite = "0.21"
futures-util = "0.3"
simd-json = "0.13"
metrics-exporter-prometheus = "0.13"
dotenvy = "0.15"
csv = "1"
async-trait = "0.1"
