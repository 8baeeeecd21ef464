[package]
name = "rotepad"
version = "0.1.0"
edition = "2021"
publish = false

[dependencies]
regex = "1"
toml = "*"
directories = "*"
rfd = "*"
gtk4 = { version = "*", features = ["v4_12"] }
