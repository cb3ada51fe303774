[package]
name = "p2p-test"
version = "0.1.0"
edition = "2021"
publish = false

[dependencies]
anyhow = "1"
async-executor = "1"
async-gen = "0.2"
async-io = "2"
async-std = "1"
base-62 = "*"
clap = { version = "4", features = ["derive"] }
env_logger = "0.11"
futures = "0.3"
log = "0.4"
rand = "0.8"
rkyv = { version = "0.7", features = ["validation", "uuid"] }
thiserror = "1"
uuid = { version = "1", features = ["v7"] }
