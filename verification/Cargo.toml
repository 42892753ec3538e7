[package]
name = "warm_drive_cache"
version = "0.2.0"
edition = "2021"
publish = false

[dependencies]
blake3 = { version = "1", features = ["pure"] }
ctrlc = "3"
directories = "*"
libc = "0.2"
serde = { version = "1", features = ["derive"] }
serde_json = "1"
walkdir = "2"
