[package]
name = "mini_tcp"
version = "0.1.0"
edition = "2021"
publish = false

[dependencies]
anyhow = "1"
env_logger = "0.10"
etherparse = "0.13"
log = "0.4"
tun-tap = { version = "0.1", default-features = false }
