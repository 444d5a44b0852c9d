[package]
name = "latte"
version = "0.1.0"
edition = "2021"
publish = false

[dependencies]
aws-config = { version = "=1.13.0", features = ["behavior-version-latest"] }
aws-sdk-dynamodb = { version = "=1.136.0", features = ["behavior-version-latest"] }
base64 = "=0.22.1"
chrono = { version = "=0.4.45", features = ["serde"] }
clap = { version = "=4.6.7", features = ["derive"] }
cpu-time = "=1.0.0"
flate2 = "=1.1.10"
hdrhistogram = "=7.6.0"
num_cpus = "=1.17.0"
openssl = "=0.10.82"
rand = "=0.8.8"
regex = "=1.13.1"
rmp-serde = "=1.3.1"
rune = "=0.13.4"
rust_decimal = "=1.43.0"
scylla = { version = "=1.9.0", features = ["openssl-010"] }
serde = { version = "=1.0.229", features = ["derive"] }
serde_json = "=1.0.154"
tokio = { version = "=1.54.1", features = ["rt", "time", "sync", "macros"] }
tracing = "=0.1.44"
try-lock = "=0.2.5"
uuid = "=1.29.0"
