[package]
name = "fujinx"
version = "0.1.0"
edition = "2021"
publish = false

[dependencies]
anyhow = "1"
clap = { version = "4", features = ["derive"] }
rusb = "0.9"
serde = { version = "1", features = ["derive"] }
serde_yaml = "0.9"
shellexpand = "3"
yansi = "1"
