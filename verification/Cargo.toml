[package]
name = "sentinel"
version = "0.1.0"
edition = "2021"
publish = false

[dependencies]
rusqlite = { version = "*", features = ["bundled"] }
chrono = "*"
sha2 = "*"
hex = "*"
clap = { version = "*", features = ["derive"] }
colored = "*"
walkdir = "*"
sysinfo = "*"
procfs = "*"
libc = "*"
