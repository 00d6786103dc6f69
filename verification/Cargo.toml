[package]
name = "davoxide"
version = "0.1.0"
edition = "2021"
publish = false

[dependencies]
argon2 = "0.5"
percent-encoding = "2"
rand_core = { version = "0.6", features = ["std"] }
uuid = { version = "1", features = ["v4"] }
