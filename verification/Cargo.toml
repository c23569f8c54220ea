[package]
name = "cabot"
version = "0.1.1"
edition = "2021"
publish = false

[dependencies]
url = "*"
