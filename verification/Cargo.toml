[package]
name = "upkg"
version = "0.1.0"
edition = "2021"
publish = false

[dependencies]
alpm = "*"
chrono = "*"
crossterm = "*"
dirs = "*"
expectrl = "*"
indicatif = "*"
libc = "*"
reqwest = { version = "*", default-features = false, features = ["blocking"] }
serde = { version = "*", features = ["derive"] }
termimad = "*"
toml = "*"
