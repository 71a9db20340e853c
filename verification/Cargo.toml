[package]
name = "udp_cluster"
version = "0.1.0"
edition = "2021"
publish = false

[dependencies]
bincode = "=1.3.3"
serde = { version = "1", features = ["derive"] }
rand = "=0.8.5"
chrono = { version = "0.4", default-features = false, features = ["clock", "std"] }
local-ip-address = "*"
