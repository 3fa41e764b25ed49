[package]
name = "muak_stub"
version = "0.1.0"
edition = "2021"
publish = false

[dependencies]
anyhow = "=1.0.104"
base64ct = "=1.8.3"
object = "=0.37.3"
uefi = { version = "=0.41.0", features = ["alloc"] }
