[package]
name = "sneaker_core"
version = "0.1.0"
edition = "2021"
publish = false

[dependencies]
url = "2"
serde = { version = "1", features = ["derive"] }
anyhow = "1"
clap = { version = "4", features = ["derive"] }
smol = "2"

[dev-dependencies]
regex-lite = "0.1"
