[package]
name = "sim_core"
version = "0.1.0"
edition = "2021"
publish = false

[dependencies]
wasm-bindgen = "*"

[dev-dependencies]
serde_json = "1"
