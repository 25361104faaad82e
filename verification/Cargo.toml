[package]
name = "gee"
version = "0.1.0"
edition = "2021"
publish = false

[dependencies]
clap = "2"
home = "0.5"
serde = { version = "1", features = ["derive"] }
serde_json = "1"
spinners = "1"
