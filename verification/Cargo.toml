[package]
name = "rakukan"
version = "0.9.12"
edition = "2021"
publish = false

[dependencies]
unicode-normalization = "0.1"
serde = { version = "1", features = ["derive"] }
toml = "*"
anyhow = "1"
clap = { version = "4", features = ["derive"] }
which = "*"
tracing = "0.1"

[dev-dependencies]
tempfile = "3"
