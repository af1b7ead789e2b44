[package]
name = "wayvid"
version = "0.1.0"
edition = "2021"
publish = false

[dependencies]
lz4_flex = "=0.11.6"
anyhow = "=1.0.104"
serde = { version = "=1.0.229", features = ["derive"] }
serde_json = "=1.0.154"
serde_yaml = "=0.9.34"
tracing = "=0.1.44"
shellexpand = "=3.1.2"
dirs = "=5.0.1"
notify = "=6.1.1"
image = { version = "0.25", default-features = false, features = ["png", "jpeg", "gif", "webp", "bmp", "tiff", "ico", "tga", "pnm", "qoi", "hdr", "dds"] }
