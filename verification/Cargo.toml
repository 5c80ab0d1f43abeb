[package]
name = "unitycatalog"
version = "0.1.0"
edition = "2021"
publish = false

[dependencies]
uuid = { version = "1", features = ["v4", "v7", "serde"] }
chrono = "0.4"
serde = { version = "1", features = ["derive"] }
serde_json = "1"
async-trait = "0.1"
tokio = { version = "1", features = ["sync", "macros", "rt-multi-thread", "time"] }
axum = "0.7"
aws-config = "1"
aws-sdk-s3 = "1"
tracing = "0.1"
anyhow = "1"
