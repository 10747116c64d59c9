[package]
name = "fontspector"
version = "0.1.0"
edition = "2021"
publish = false

[dependencies]
fontations = "=0.3.0"
tabled = "=0.22.0"
serde = { version = "=1.0.229", features = ["derive"] }
serde_json = "=1.0.154"
toml = "=1.2.1"
log = "=0.4.35"
regex = "=1.13.1"
reqwest = { version = "=0.13.5", default-features = false, features = ["blocking"] }
wasm-bindgen = "=0.2.130"
js-sys = "=0.3.107"
console_error_panic_hook = "=0.1.7"
pyo3 = "0.25"
pythonize = "0.25"
