[package]
name = "mq-bridge"
version = "0.1.0"
edition = "2021"
publish = false

[dependencies]
base64 = "=0.22.1"
fast-uuid-v7 = "=0.1.10"
uuid = "=1.29.0"
flate2 = "=1.1.10"
lz4_flex = "=0.14.0"
zstd = "=0.14.3"
hyper = { version = "=1.12.0", default-features = false }
async-channel = "2"
