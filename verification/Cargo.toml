[package]
name = "recording_window"
version = "0.1.0"
edition = "2021"
publish = false

[dependencies]
sun-times = "*"
chrono = "0.4"
serde = { version = "1", features = ["derive"] }
toml = "*"
byteorder = "1"
triangulate = "*"
log = "0.4"
