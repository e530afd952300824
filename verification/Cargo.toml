[package]
name = "clipboard_owner"
version = "0.1.0"
edition = "2021"
publish = false

[dependencies]
tracing = "0.1"
x11rb = { version = "0.8", features = ["allow-unsafe-code"] }
