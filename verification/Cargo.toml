[package]
name = "pink_core"
version = "0.1.0"
edition = "2021"
publish = false

[dependencies]
pink-extension = { version = "=0.5.1", features = ["std"] }
ink = { version = "=4.3.0", features = ["std"] }
parity-scale-codec = "=3.7.5"
