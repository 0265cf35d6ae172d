[package]
name = "fallow_cli"
version = "0.1.0"
edition = "2021"
publish = false

[dependencies]
globset = "0.4"
serde = { version = "1", features = ["derive"] }
serde_json = "1"
tempfile = "3"
colored = "2"
clap = { version = "4", features = ["derive"] }
rustc-hash = "2"
