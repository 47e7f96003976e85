[package]
name = "yuma"
version = "0.1.0"
edition = "2021"
publish = false

[dependencies]
atty = "*"
nix = { version = "*", features = ["feature", "hostname"] }
log = "*"
requestty = "*"
serde = { version = "*", features = ["derive"] }
serde_json = "*"
serde_yaml = "*"
simplelog = "*"
