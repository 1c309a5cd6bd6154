[package]
name = "markflow"
version = "0.1.0"
edition = "2021"
publish = false

[dependencies]
chrono = "=0.4.45"
clap = { version = "=4.6.7", features = ["derive"] }
comrak = "=0.44.0"
dirs = "=7.0.0"
html-escape = "=0.2.15"
notify = "=8.2.0"
serde = { version = "=1.0.229", features = ["derive"] }
toml = "=1.1.6"
uuid = { version = "=1.27.0", features = ["v4"] }
