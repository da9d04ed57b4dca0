[package]
name = "mdview"
version = "0.1.0"
edition = "2021"
publish = false

[dependencies]
base64 = "0.22"
clap = { version = "4", features = ["derive"] }
dirs = "5"
open = "5"
rand = "0.8"
serde = { version = "1", features = ["derive"] }
toml = "0.8"
