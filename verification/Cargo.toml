[package]
name = "raft_core"
version = "0.1.0"
edition = "2021"
publish = false

[dependencies]
bytes = "=1.12.1"
futures = "=0.3.34"
rand = "=0.8.8"
tokio = { version = "=1.53.2", features = ["full"] }
tonic = "=0.14.6"
uuid = { version = "=1.27.0", features = ["v4", "v5"] }
