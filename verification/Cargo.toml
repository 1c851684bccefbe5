[package]
name = "dial9_tokio_telemetry"
version = "0.1.0"
edition = "2021"
publish = false

[dependencies]
crossbeam-queue = "0.3"
smallvec = "1"
flate2 = "1"
hostname = "0.4"
tokio = { version = "1", features = ["full"] }
futures-util = "0.3"
pin-project-lite = "0.2"
arc-swap = "1"
backtrace = "0.3"
bon = "3"
serde = { version = "1", features = ["derive"] }
tracing = "0.1"
metrique = "*"
metrique-writer = "*"
aws-config = "1"
aws-sdk-s3 = "1"
aws-sdk-s3-transfer-manager = "*"
syn = { version = "2", features = ["full"] }
quote = "1"
proc-macro2 = "1"
