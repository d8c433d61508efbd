[package]
name = "imagetest"
version = "0.1.0"
edition = "2021"
publish = false

[dependencies]
clap = "=2.34.0"
colored = "=1.9.4"
futures = "=0.1.31"
hyper = "=0.11.27"
serde = { version = "=1.0.229", features = ["derive"] }
serde_json = "=1.0.154"
tokio-core = "=0.1.18"
toml = "=0.8.23"
