[package]
name = "dh_envelope"
version = "0.1.0"
edition = "2021"
publish = false

[dependencies]
rgp = { version = "=0.7.0", default-features = false }
wasm-bindgen = "=0.2.129"
