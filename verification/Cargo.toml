[package]
name = "hex_bytes"
version = "0.1.0"
edition = "2021"
publish = false

[dependencies]
faster-hex = "*"
hex = "0.4"
serde = "1"
