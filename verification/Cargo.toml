[package]
name = "mokabench"
version = "0.1.0"
edition = "2021"
publish = false

[dependencies]
anyhow = "1"
async-io = "*"
async-trait = "0.1"
clap = "3"
crossbeam-channel = "0.5"
futures-util = "0.3"
hashlink = "*"
mini-moka = "*"
moka = { version = "0.12", features = ["sync", "future"] }
parking_lot = "0.12"
quick_cache = "*"
stretto = "*"
thiserror = "1"
tokio = { version = "1", features = ["rt-multi-thread", "macros"] }
xxhash-rust = { version = "0.8", features = ["xxh3"] }
