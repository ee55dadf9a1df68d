[package]
name = "passcheck"
version = "0.1.0"
edition = "2021"
publish = false

[dependencies]
similar-string = "*"
clap = { version = "*", features = ["derive"] }
owo-colors = { version = "*", features = ["supports-colors"] }
const_format = { version = "*", features = ["rust_1_64"] }
