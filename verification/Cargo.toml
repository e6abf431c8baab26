[package]
name = "tc"
version = "0.1.0"
edition = "2021"
publish = false

[dependencies]
chrono = "*"
chrono-tz = "*"
clap = { version = "*", features = ["cargo"] }
confy = "*"
pancurses = "*"
serde = { version = "*", features = ["derive"] }
serde_derive = "*"
serde_json = "*"
