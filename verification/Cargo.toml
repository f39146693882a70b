[package]
name = "logscan"
version = "0.1.0"
edition = "2021"
publish = false

[dependencies]
html-escape = "*"
semver = "*"
rhai = "*"
serde = { version = "*", features = ["derive"] }
toml = "*"
tokio = { version = "*", features = ["fs", "io-util"] }
tokio-stream = { version = "*", features = ["io-util"] }
