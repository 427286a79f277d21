[package]
name = "obj_scene"
version = "0.1.0"
edition = "2021"
publish = false

[dependencies]
cgmath = "0.18"
wasm-bindgen = "0.2"
web-sys = { version = "0.3", features = ["console"] }
