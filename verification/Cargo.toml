[package]
name = "pst_core"
version = "0.1.0"
edition = "2021"
publish = false

[dependencies]
encoding_rs = "=0.8.44"
directories = "=5.0.1"
chrono = { version = "=0.4.45", default-features = false, features = ["clock", "std"] }
regex = "1"
serde = { version = "=1.0.229", features = ["derive"] }
serde_json = "=1.0.154"
toml = "=0.8.23"
thiserror = "=2.0.21"
once_cell = "=1.21.4"
reqwest = { version = "=0.12.28", default-features = false, features = ["rustls-tls", "cookies", "json", "stream"] }
tokio = { version = "=1.54.1", features = ["full"] }
axum = "=0.8.9"
tower-http = { version = "=0.6.11", features = ["cors", "fs"] }
futures-util = "=0.3.34"
tracing = "=0.1.44"
tracing-appender = "=0.2.5"
tracing-subscriber = { version = "=0.3.23", features = ["env-filter"] }
