[package]
name = "remote_jupyter"
version = "0.1.0"
edition = "2021"
publish = false

[dependencies]
url = "2"
anyhow = "1"
clap = { version = "4", features = ["derive"] }
nix = { version = "*", features = ["signal", "process"] }
prettytable-rs = "0.10"
serde = { version = "1", features = ["derive"] }
serde_derive = "1"
serde_yaml = "0.9"
