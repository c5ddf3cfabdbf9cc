[package]
name = "komodo_cli"
version = "0.1.0"
edition = "2021"
publish = false

[dependencies]
anyhow = "1"
bson = "*"
clap = { version = "4", features = ["derive"] }
colored = "*"
comfy-table = "*"
crossterm = "*"
futures-util = "*"
reqwest = { version = "*", default-features = false, features = ["json", "stream"] }
serde_json = "1"
tokio = { version = "1", features = ["full"] }
tokio-util = { version = "*", features = ["codec", "io"] }
