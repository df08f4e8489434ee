[package]
name = "bang_commands"
version = "0.1.0"
edition = "2021"
publish = false

[dependencies]
lazy_static = "=1.5.1"
rocket = { version = "0.5", default-features = false }
serde = { version = "=1.0.229", features = ["derive"] }
tera = { version = "=1.20.1", default-features = false }
toml = "=0.5.11"
