[package]
name = "srv"
version = "0.1.0"
edition = "2021"
publish = false

[dependencies]
chrono = "*"
hex = "*"
ring = "*"
uuid = { version = "*", features = ["v4"] }
