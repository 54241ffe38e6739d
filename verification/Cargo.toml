[package]
name = "pop_client"
version = "0.1.0"
edition = "2021"
publish = false

[dependencies]
base64 = "*"
tokio = { version = "*", features = ["net", "io-util", "rt", "macros", "time"] }
