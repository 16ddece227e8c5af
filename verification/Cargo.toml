[package]
name = "ukiapi"
version = "0.1.0"
edition = "2021"
publish = false

[dependencies]
axum = { version = "=0.8.9", features = ["multipart", "ws"] }
tokio = { version = "=1.54.1", features = ["full"] }
tokio-util = { version = "=0.7.20", features = ["io"] }
tower = { version = "=0.5.3", features = ["util"] }
tower-http = { version = "=0.6.11", features = ["fs", "cors", "trace", "timeout", "compression-gzip"] }
serde = { version = "=1.0.229", features = ["derive"] }
serde_json = { version = "=1.0.154", features = ["raw_value"] }
jsonwebtoken = "=9.3.1"
mime_guess = "=2.0.5"
futures = "=0.3.34"
http-body-util = "=0.1.5"
clap = { version = "=4.6.7", features = ["derive"] }
colored = "=2.2.0"
log = "=0.4.35"
env_logger = "=0.11.11"
inventory = "=0.3.25"
schemars = "=0.8.22"
validator = { version = "=0.20.0", features = ["derive"] }
