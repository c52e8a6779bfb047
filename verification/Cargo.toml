[package]
name = "cali"
version = "0.1.0"
edition = "2021"
publish = false

[dependencies]
chrono = "0.4"
clap = { version = "4", features = ["derive"] }
rusqlite = "*"
uuid = { version = "1", features = ["v4"] }
