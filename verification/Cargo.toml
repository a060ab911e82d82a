[package]
name = "xyk"
version = "0.1.0"
edition = "2021"
publish = false

[dependencies]
parity-scale-codec = { version = "3", features = ["derive"] }
scale-info = { version = "2", features = ["derive"] }
sp-runtime = "=41.1.0"
frame-support = "=40.1.0"
frame-system = "=40.1.0"
pallet-assets = "=42.0.0"
