[package]
name = "pravega_bench"
version = "0.1.0"
edition = "2021"
publish = false

[dependencies]
chrono = "*"
serde = { version = "*", features = ["derive"] }
serde_json = "*"
serde_yaml = "*"
threadpool = "*"
async-std = "*"
pravega-client = "*"
pravega-client-config = "*"
pravega-client-shared = "*"
