[package]
name = "octopus"
version = "0.1.0"
edition = "2021"
publish = false

[dependencies]
sha1 = "0.6"
redis = "*"
serde = { version = "1", features = ["derive"] }
serde_derive = "1"
serde_json = "1"
mysql = { version = "*", default-features = false, features = ["minimal-rust"] }
zookeeper = "*"
threadpool = "1"
clap = "2"
log = "0.4"
env_logger = "*"
crossbeam = "*"
failure = "0.1"
protobuf = "*"
