[package]
name = "png_to_jpg"
version = "0.1.0"
edition = "2021"
publish = false

[dependencies]
byteorder = "1"
flate2 = "1"
image = { version = "0.25", default-features = false, features = ["jpeg"] }
wasm-bindgen = "0.2"
