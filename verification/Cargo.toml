[package]
name = "zebra_crosslink"
version = "0.1.0"
edition = "2021"
publish = false

[dependencies]
blake3 = { version = "=1.8.7", default-features = false, features = ["std", "pure"] }
ed25519-zebra = "=4.2.0"
rand = "=0.8.8"
hex = "=0.4.3"
chrono = { version = "=0.4.45", default-features = false, features = ["std", "clock"] }
serde = { version = "=1.0.229", features = ["derive"] }
sha2 = "=0.10.9"
