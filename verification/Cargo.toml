[package]
name = "scribe"
version = "0.1.0"
edition = "2021"
publish = false

[dependencies]
sha2 = "*"
chrono = "*"
uuid = { version = "*", features = ["v4"] }
