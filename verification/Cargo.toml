[package]
name = "registry_core"
version = "0.1.0"
edition = "2021"
publish = false

[dependencies]
sha2 = "*"
serde_json = "*"
serde = { version = "*", features = ["derive"] }
toml = "*"
cel-interpreter = "*"
x509-parser = "*"
