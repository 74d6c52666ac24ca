[package]
name = "febft"
version = "0.1.0"
edition = "2021"
publish = false

[dependencies]
async-tls = "0.11"
bytes = "1"
crossbeam-channel = "0.5"
dashmap = "5"
either = "1"
fastrand = "1"
futures = "0.3"
futures-timer = "3"
intmap = "2.0"
parking_lot = "0.12"
ring = "0.16"
rustls = "0.19"
serde = { version = "1", features = ["derive"] }
smallvec = "1"
webpki = "0.21"
