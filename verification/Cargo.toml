[package]
name = "crust"
version = "0.1.0"
edition = "2021"
publish = false

[dependencies]
serde = { version = "1", features = ["derive"] }
serde_json = "1"
toml = "0.8"
uuid = { version = "1", features = ["v4"] }
log = "0.4"
env_logger = "0.11"
tokio = { version = "1", features = ["rt-multi-thread", "macros", "net", "io-util"] }
num = "0.4"
syn = { version = "2", features = ["full"] }
quote = "1"
proc-macro2 = "1"
