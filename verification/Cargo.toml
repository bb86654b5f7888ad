[package]
name = "caminatus"
version = "0.1.0"
edition = "2021"
publish = false

[dependencies]
anyhow = "=1.0.104"
futures = "=0.3.34"
mime_guess = "=2.0.5"
percent-encoding = "=2.3.2"
regex = "=1.13.1"
rppal = "=0.22.1"
rsfuzzy = "=0.1.3"
serde = { version = "=1.0.229", features = ["derive"] }
serde_json = "=1.0.154"
serde_yaml = "=0.9.34"
structopt = "=0.3.26"
tokio = { version = "=1.54.1", features = ["full"] }
tokio-stream = "=0.1.19"
tracing = "=0.1.44"
tracing-subscriber = "=0.3.23"
uuid = { version = "=1.29.0", features = ["v4"] }
warp = "=0.3.7"
