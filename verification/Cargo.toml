[package]
name = "agar"
version = "0.1.0"
edition = "2021"

[dependencies]
rust_decimal = "*"
