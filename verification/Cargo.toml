[package]
name = "deluge_rpc"
version = "0.1.0"
edition = "2021"
publish = false

[dependencies]
hex = "=0.4.3"
regex = "=1.13.1"
cloudflare-zlib = "=0.2.10"
hashers = "=1.0.1"
fnv = "=1.0.7"
serde = { version = "=1.0.229", features = ["derive"] }
serde-value = "0.7"
thiserror = "=1.0.69"
tokio = { version = "1", features = ["full"] }
tokio-rustls = "=0.23.4"
rustls = { version = "=0.20.9", features = ["dangerous_configuration"] }
futures = "=0.3.34"
