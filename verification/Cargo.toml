[package]
name = "tire"
version = "0.1.0"
edition = "2021"
publish = false

[dependencies]
toml = "=0.8.23"
clap = { version = "=4.6.7", features = ["derive"] }
log = "=0.4.34"
thiserror = "=1.0.69"
reqwest = { version = "=0.12.28", features = ["blocking"] }
