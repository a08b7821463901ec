[package]
name = "xdcc_agent"
version = "0.1.0"
edition = "2021"
publish = false

[dependencies]
anyhow = "=1.0.104"
axum = "=0.6.20"
dashmap = "=5.5.3"
futures-util = "=0.3.34"
irc = { version = "1.0", default-features = false, features = ["ctcp", "toml_config"] }
log = "=0.4.34"
regex = "=1.13.1"
reqwest = { version = "=0.11.27", default-features = false, features = ["rustls-tls"] }
serde = { version = "=1.0.229", features = ["derive"] }
simple_logger = "=4.3.3"
tokio = { version = "=1.54.1", features = ["full"] }
tokio-stream = { version = "=0.1.19", features = ["sync"] }
toml = "=0.7.8"
tower-http = { version = "=0.4.4", features = ["fs"] }

[dev-dependencies]
itertools = "=0.10.5"
