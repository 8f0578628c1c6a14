[package]
name = "lumen"
version = "0.1.0"
edition = "2021"
publish = false

[dependencies]
clap = { version = "=4.6.7", features = ["derive", "env"] }
reqwest = { version = "=0.13.5", default-features = false, features = ["stream"] }
tokio = { version = "=1.53.2", features = ["rt-multi-thread", "macros"] }

[dev-dependencies]
serde_json = "*"
