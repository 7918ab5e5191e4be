[package]
name = "sim_admission"
version = "0.1.0"
edition = "2021"
publish = false

[dependencies]
serde = { version = "*", features = ["derive"] }
serde_json = "*"
base64 = "*"

[dev-dependencies]
json-patch = "*"
