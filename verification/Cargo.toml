[package]
name = "quandl_v3"
version = "0.1.0"
edition = "2021"
publish = false

[dependencies]
bytes = "0.5"
chrono = { version = "0.4", default-features = false, features = ["std"] }
hyper = "0.13"
hyper-tls = "0.4"
quick-csv = "0.1"
quick-error = "1"
serde_json = "1"
tokio = { version = "0.2", features = ["rt-core"] }
url = "2"
zip = { version = "0.6", default-features = false, features = ["deflate"] }
