[package]
name = "rust_markdown_notebook"
version = "0.1.0"
edition = "2021"
publish = false

[dependencies]
anyhow = "=1.0.104"
proc-macro2 = "=1.0.107"
pulldown-cmark = { version = "=0.9.6", default-features = false }
pulldown-cmark-to-cmark = "=10.0.4"
quote = "=1.0.47"
serde = { version = "=1.0.229", features = ["derive"] }
serde-wasm-bindgen = "=0.6.5"
syn = { version = "=3.0.9", features = ["full"] }
wasm-bindgen = "=0.2.129"
