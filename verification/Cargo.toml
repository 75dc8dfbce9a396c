[package]
name = "rekt_broker"
version = "0.1.0"
edition = "2021"
publish = false

[dependencies]
rand = "0.8"
tokio = { version = "1", features = ["rt-multi-thread", "macros", "net", "sync", "time"] }
serde = { version = "1", features = ["derive"] }
toml = "0.8"
local-ip-address = "*"
lazy_static = "1"
regex = "1"
uuid = { version = "1", features = ["v4"] }
