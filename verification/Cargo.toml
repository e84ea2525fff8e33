[package]
name = "chain_store"
version = "0.1.0"
edition = "2021"
publish = false

[dependencies]
blake2 = "*"
digest = "*"
chrono = "*"
log = "*"
log4rs = "*"
dirs = "*"
tokio = { version = "*", features = ["net", "rt", "io-util"] }
futures = "*"
tower = { version = "*", features = ["util"] }
