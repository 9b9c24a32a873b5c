[package]
name = "subnet_lease"
version = "0.1.0"
edition = "2021"
publish = false

[dependencies]
anyhow = "1"
async-trait = "0.1"
chrono = "0.4"
etcd-client = "0.14"
futures = "0.3"
ipnetwork = "0.20"
log = "0.4"
native-tls = "0.2"
rand = "0.8"
regex = "1"
serde = { version = "1", features = ["derive"] }
serde_json = "1"
thiserror = "1"
tokio = { version = "1", features = ["sync", "time", "rt", "macros"] }
tonic = "0.12"
