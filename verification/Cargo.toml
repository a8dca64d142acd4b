[package]
name = "gpu_copy"
version = "0.1.0"
edition = "2021"
publish = false

[dependencies]
anyhow = "1"
base64 = "0.21"
futures = "0.3"
futures-lite = "2"
image = { version = "0.24", default-features = false, features = ["png"] }
log = "0.4"
parking_lot = "0.12"
pretty_env_logger = "0.5"
