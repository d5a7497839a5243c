[package]
name = "node_installer"
version = "0.1.0"
edition = "2021"
publish = false

[dependencies]
serde_json = "*"
curl = "*"
dialoguer = "*"
flate2 = "*"
tar = "*"
tempfile = "*"
nix = { version = "*", features = ["feature"] }
is-root = "*"
