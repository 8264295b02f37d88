[package]
name = "mlua_scheduler"
version = "0.1.0"
edition = "2021"
publish = false

[dependencies]
tokio = { version = "=1.54.1", features = ["sync", "rt", "macros", "time", "fs"] }
tokio-util = { version = "=0.7.20", features = ["rt", "time"] }
futures-util = "=0.3.34"
log = "=0.4.35"
env_logger = "=0.11.11"
clap = { version = "=4.6.7", features = ["derive"] }
flume = "=0.12.0"
indexmap = "=2.14.2"
smol = "=2.0.2"
mlua = { version = "=0.11.6", features = ["luau", "async"] }
