[package]
name = "sapio_template"
version = "0.1.0"
edition = "2021"
publish = false

[dependencies]
bitcoin = { version = "0.28", features = ["use-serde"] }
schemars = "0.8"
serde = { version = "1", features = ["derive"] }
serde_json = "1"
