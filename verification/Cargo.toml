[package]
name = "apigen"
version = "0.1.0"
edition = "2021"
publish = false

[dependencies]
heck = "*"
okapi = "*"
serde_json = "*"
serde_yaml = "*"
clap = { version = "*", features = ["derive"] }
backtrace = "*"
thiserror = "*"
