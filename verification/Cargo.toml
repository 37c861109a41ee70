[package]
name = "influxdb3"
version = "0.1.0"
edition = "2021"
publish = false

[dependencies]
arrow-array = "=60.0.0"
arrow-flight = "=60.0.0"
arrow-schema = "=60.0.0"
async-compression = { version = "=0.4.50", default-features = false, features = ["tokio", "gzip"] }
chrono = { version = "=0.4.45", default-features = false, features = ["clock"] }
futures = "=0.3.34"
http = "=1.5.0"
reqwest = { version = "=0.13.5", default-features = false, features = ["json", "gzip", "query"] }
serde = { version = "=1.0.229", features = ["derive"] }
serde_json = "=1.0.151"
thiserror = "=2.0.21"
tokio = { version = "=1.53.2", features = ["io-util"] }
tonic = "=0.14.6"
url = "=2.5.8"
