[package]
name = "falling_blocks"
version = "0.1.0"
edition = "2021"
publish = false

[dependencies]
rand = "0.8"
serde = { version = "1", features = ["derive"] }
serde_repr = "0.1"
wasm-bindgen = { version = "0.2", features = ["serde-serialize"] }
