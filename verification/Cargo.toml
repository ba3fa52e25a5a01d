[package]
name = "valet"
version = "0.1.0"
edition = "2021"
publish = false

[dependencies]
oorandom = "=11.1.5"
futures = "=0.3.34"
async-trait = "=0.1.92"
tokio = { version = "=1.54.1", features = ["rt-multi-thread", "macros"] }
reqwest = { version = "=0.12.28", default-features = false, features = ["json", "stream", "rustls-tls"] }
url = "=2.5.8"
serde = { version = "=1.0.229", features = ["derive"] }
log = "=0.4.35"
flume = "=0.11.1"
once_cell = "=1.21.4"
backoff = "=0.4.0"
futures-timer = "=3.0.4"
nj-sys = "=4.0.0"
argh = "=0.1.19"
pretty_env_logger = "=0.5.0"

[dev-dependencies]
http = "=1.5.0"
