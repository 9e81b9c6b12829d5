[package]
name = "pf2"
version = "0.1.0"
edition = "2021"
publish = false

[dependencies]
libc = "0.2"
rb-sys = "0.9"
serde = { version = "1", features = ["derive"] }
serde_json = "1"
