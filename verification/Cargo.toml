[package]
name = "bytepipe"
version = "0.1.0"
edition = "2021"
publish = false

[dependencies]
base64 = "0.22"
hex = "0.4"
clap = { version = "4", features = ["derive"] }
