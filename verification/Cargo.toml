[package]
name = "conflaguration"
version = "0.1.0"
edition = "2021"
publish = false

[dependencies]
environs = "=1.2.0"
serde = { version = "=1.0.229", features = ["derive"] }
serde_json = "=1.0.154"
serde_yaml = "=0.9.34"
serde-value = "=0.7.0"
toml = "=1.1.8"
thiserror = "=2.0.21"
syn = "=2.0.119"

[dev-dependencies]
temp-env = "=0.3.6"
tempfile = "=3.27.0"
