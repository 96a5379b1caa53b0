[package]
name = "komorebi"
version = "0.1.0"
edition = "2021"
publish = false

[dependencies]
color-eyre = "0.6"
getset = "0.1"
nanoid = "0.4"
schemars = "0.8"
serde = { version = "1", features = ["derive"] }
tracing = "0.1"
