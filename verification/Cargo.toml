[package]
name = "cargo_cli"
version = "0.1.0"
edition = "2021"
publish = false

[dependencies]
rustc-serialize = "0.3"
docopt = "1"
serde = "1"
curl = "0.4"
term = "*"
