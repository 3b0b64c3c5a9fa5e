[package]
name = "monopoly_core"
version = "0.4.0"
edition = "2021"
publish = false

[dependencies]
rand = "=0.8.8"
serde = { version = "=1.0.229", features = ["derive"] }
toml = "=0.8.23"
bincode = "=1.3.3"
anyhow = "=1.0.104"
tokio = { version = "=1.54.1", features = ["full"] }
tracing = "=0.1.44"
tracing-subscriber = "=0.3.23"
macroquad = "0.4"
