[package]
name = "arcanum"
version = "0.1.0"
edition = "2021"
publish = false

[dependencies]
chrono = { version = "0.4", default-features = false, features = ["std", "clock"] }
log = "0.4"
rand = "0.9"
rand_core = { version = "0.9", features = ["os_rng"] }
secrecy = "0.10"
thiserror = "2"
zeroize = "1"
