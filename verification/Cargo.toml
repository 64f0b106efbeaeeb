[package]
name = "hc-web-leptos"
version = "0.1.0"
edition = "2021"
publish = false

[dependencies]
chrono = "0.4"
uuid = "1"
serde_json = "1"
web-sys = { version = "0.3", features = ["Window", "Storage"] }
js-sys = "0.3"
wasm-bindgen = "0.2"
