[package]
name = "bottomless"
version = "0.1.0"
edition = "2021"
publish = false

[dependencies]
uuid = { version = "=1.29.0", features = ["v7"] }
chrono = { version = "=0.4.45", default-features = false, features = ["std", "clock"] }
anyhow = "=1.0.104"
bytes = "=1.12.1"
tracing = "0.1"
tokio = { version = "=1.54.1", features = ["full"] }
tokio-util = { version = "=0.7.20", features = ["io"] }
async-compression = { version = "=0.4.51", features = ["tokio", "gzip"] }
aws-config = "=0.101.0"
aws-sdk-s3 = "=0.38.0"
