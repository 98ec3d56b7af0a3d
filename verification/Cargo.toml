[package]
name = "shellfs"
version = "0.1.0"
edition = "2021"
publish = false

[dependencies]
html-to-markdown-rs = "*"
serde = { version = "*", features = ["derive"] }
serde-wasm-bindgen = "*"
wasm-bindgen = "*"
