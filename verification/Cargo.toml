[package]
name = "fencerunner"
version = "0.1.0"
edition = "2021"
publish = false

[dependencies]
anyhow = "*"
clap = { version = "*", features = ["derive"] }
jsonschema = { version = "*", default-features = false }
serde = { version = "*", features = ["derive"] }
serde_json = "*"
tempfile = "*"
