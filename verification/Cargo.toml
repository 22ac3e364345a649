[package]
name = "wither_network"
version = "0.1.0"
edition = "2021"
publish = false

[dependencies]
aes = "0.8"
cfb8 = "0.8"
libdeflater = "*"
rsa = "0.9"
rsa-der = "*"
rand = "0.8"
tokio = { version = "1", features = ["rt-multi-thread", "net", "io-util", "sync", "macros", "time"] }
dashmap = "*"
bytes = "1"
log = "*"
env_logger = "*"
