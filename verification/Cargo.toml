[package]
name = "icx_proxy"
version = "0.1.0"
edition = "2021"
publish = false

[dependencies]
anyhow = "=1.0.104"
base64 = "=0.23.1"
clap = { version = "=4.6.7", features = ["derive"] }
flate2 = "=1.1.10"
hyper = { version = "=0.14.32", features = ["full"] }
hyper-tls = "=0.5.0"
ic-agent = "=0.49.2"
ic-certification = "=3.2.0"
ic-utils = "=0.49.2"
serde_cbor = "=0.11.2"
sha2 = "=0.11.0"
tokio = { version = "=1.53.2", features = ["full"] }
url = "=2.5.8"
