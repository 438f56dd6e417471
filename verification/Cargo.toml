[package]
name = "xan_help"
version = "0.1.0"
edition = "2021"
publish = false

[dependencies]
textwrap = "*"
serde = { version = "*", features = ["derive"] }
serde_json = "*"
opener = "*"
