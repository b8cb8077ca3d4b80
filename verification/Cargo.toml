[package]
name = "terminal_plus"
version = "0.1.0"
edition = "2021"
publish = false

[dependencies]
base64 = "=0.22.1"
parking_lot = "=0.12.5"
portable-pty = "=0.8.1"
serde = { version = "1", features = ["derive"] }
