[package]
name = "ulidtools"
version = "0.1.0"
edition = "2021"
publish = false

[dependencies]
uuid = { version = "*", features = ["v7"] }
chrono = "*"
clap = { version = "*", features = ["derive"] }
color-print = "*"

[dev-dependencies]
ulid = "*"
