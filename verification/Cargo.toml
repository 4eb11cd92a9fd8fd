[package]
name = "tasker"
version = "0.1.0"
edition = "2021"
publish = false

[dependencies]
clap = { version = "=4.6.7", features = ["derive", "env", "string"] }
serde = { version = "=1.0.229", features = ["derive"] }
serde_yaml = "=0.9.34"
