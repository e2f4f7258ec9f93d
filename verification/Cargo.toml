[package]
name = "db721"
version = "0.1.0"
edition = "2021"
publish = false

[dependencies]
anyhow = "1"
bytes = "1"
libc = "0.2"
pgrx = "0.9"
serde = { version = "1", features = ["derive"] }
serde_json = "1"
