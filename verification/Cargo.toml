[package]
name = "ingrain"
version = "0.1.0"
edition = "2021"
publish = false

[dependencies]
redbpf = { version = "*", default-features = false }
serde = { version = "1", features = ["derive"] }
