[package]
name = "easechat"
version = "0.1.0"
edition = "2021"
publish = false

[dependencies]
ws = "0.9"
chrono = "0.4"
clap = "2"
rusqlite = { version = "*", features = ["chrono"] }
