[package]
name = "labeld"
version = "0.1.0"
edition = "2021"
publish = false

[dependencies]
image = "0.24"
imageproc = "0.23"
rusttype = "0.9"
serde = { version = "1", features = ["derive"] }
rusb = "0.9"
brother-ql-rs = "*"
