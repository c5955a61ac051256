[package]
name = "dormin"
version = "0.1.0"
edition = "2021"
publish = false

[dependencies]
uuid = { version = "=1.29.1", features = ["v4"] }
png = "=0.17.16"
rustc-serialize = "0.3"
