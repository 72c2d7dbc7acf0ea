[package]
name = "fishnet"
version = "0.1.0"
edition = "2021"
publish = false

[dependencies]
regex = "1"
rand = "0.9"
smol = "2"
async-channel = "2"
async-dup = "1"
clap = { version = "4", features = ["derive"] }
owo-colors = "4"
