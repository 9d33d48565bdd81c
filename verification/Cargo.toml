[package]
name = "log_reader"
version = "0.1.0"
edition = "2021"
publish = false

[dependencies]
chrono = "=0.4.45"
iced = { version = "=0.14.0", default-features = false, features = ["advanced", "thread-pool", "x11"] }
