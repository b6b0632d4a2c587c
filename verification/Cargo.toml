[package]
name = "dvr"
version = "0.1.0"
edition = "2021"
publish = false

[dependencies]
anyhow = "=1.0.104"
axum = { version = "=0.8.9", default-features = false, features = ["http1", "json", "query", "tokio"] }
clap = { version = "=4.6.7", features = ["derive"] }
dirs = "=6.0.0"
futures = "=0.3.34"
http-body-util = "=0.1.5"
hyper = "=1.12.0"
hyper-util = "=0.1.21"
hyperlocal = "=0.9.1"
jj-lib = "=0.44.0"
# Comes with jj-lib; held here to the last release that this Rust compiles.
kstring = "=2.0.2"
notify-debouncer-full = "=0.7.0"
rustix = { version = "=1.1.6", features = ["fs"] }
serde = { version = "=1.0.229", features = ["derive"] }
serde_json = "=1.0.154"
tokio = { version = "=1.54.1", features = ["full"] }
tracing = "=0.1.44"
tracing-subscriber = { version = "=0.3.23", features = ["env-filter"] }
