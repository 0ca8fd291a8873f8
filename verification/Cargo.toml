[package]
name = "peertube"
version = "0.1.0"
edition = "2021"
publish = false

[dependencies]
reqwest = { version = "=0.12.28", default-features = false }

[dev-dependencies]
form_urlencoded = "=1.2.2"
percent-encoding = "=2.3.2"
serde_json = "=1.0.154"
