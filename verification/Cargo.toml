[package]
name = "greetd_ipc"
version = "0.1.0"
edition = "2021"
publish = false

[dependencies]
calloop = "0.9"
serde = { version = "1", features = ["derive"] }
serde_json = "1"
writeable = "0.4"
