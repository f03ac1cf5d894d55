[package]
name = "lsl"
version = "0.1.0"
edition = "2021"
publish = false

[dependencies]
rust_decimal = "1"
chrono = "0.4"
bit-vec = "0.8"
http = "1"
argon2 = "0.5"
urlencoding = "2"
rand = "0.8"
serde = { version = "1", features = ["derive"] }
serde_json = "1"
strum = { version = "0.26", features = ["derive"] }
thiserror = "1"
