[package]
name = "weshce"
version = "0.1.0"
edition = "2021"
publish = false

[dependencies]
chrono = "*"
async-std = "*"
notify = "*"
notify-rust = "*"
