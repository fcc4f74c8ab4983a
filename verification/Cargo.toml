[package]
name = "xt_gateway"
version = "0.1.0"
edition = "2021"
publish = false

[dependencies]
anyhow = "1"
async-trait = "0.1"
env_logger = "*"
log = "0.4"
quick-xml = "*"
thiserror = "1"
tokio = { version = "1", features = ["full"] }
tokio-util = "0.7"
