[package]
name = "keyserver"
version = "0.1.0"
edition = "2021"
publish = false

[dependencies]
secp256k1 = "=0.33.1"
sha2 = "=0.11.0"
base64 = "=0.23.1"
bitcoincash-addr = "=0.5.2"
rand = "=0.10.3"
rocksdb = "=0.19.0"
tokio = { version = "=1.53.2", features = ["full"] }
warp = { version = "=0.4.3", features = ["server"] }
hyper = { version = "=1.11.1", features = ["full"] }
hyper-util = { version = "*", features = ["client", "client-legacy", "http1", "tokio"] }
http-body-util = "=0.1.5"
http = "=1.5.0"
bytes = "=1.12.1"
futures = "=0.3.34"
clap = { version = "=4.6.7", features = ["derive"] }
config = "=0.15.27"
dirs = "=7.0.0"
serde = { version = "=1.0.229", features = ["derive"] }
serde_json = "=1.0.151"
