[package]
name = "tuggy"
version = "0.1.0"
edition = "2021"
publish = false

[dependencies]
die = "*"
getopts = "0.2"
regex = "1"
serde = { version = "1", features = ["derive"] }
toml = "*"
