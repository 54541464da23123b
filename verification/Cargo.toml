[package]
name = "cross_path"
version = "0.1.0"
edition = "2021"
publish = false

[dependencies]
encoding_rs = "*"
libc = "*"
serde = { version = "*", features = ["derive"] }
