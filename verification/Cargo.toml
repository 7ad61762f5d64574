[package]
name = "configrs"
version = "0.1.0"
edition = "2021"
publish = false

[dependencies]
anyhow = "1"
confy = "*"
edit = "*"
serde = { version = "1", features = ["derive"] }
structopt = "0.3"
