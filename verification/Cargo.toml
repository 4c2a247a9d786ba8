[package]
name = "paperdock"
version = "0.3.0"
edition = "2021"
publish = false

[dependencies]
serde_json = "1"
dirs = "5"
serde = { version = "1", features = ["derive"] }
reqwest = { version = "0.12", default-features = false, features = ["json"] }
tokio = { version = "1", features = ["process", "io-util", "sync", "rt"] }
futures = "0.3"
leptos = { version = "0.8", default-features = false, features = ["csr"] }
wasm-bindgen = "0.2"
wasm-bindgen-futures = "0.4"
serde-wasm-bindgen = "0.6"
js-sys = "0.3"
web-sys = { version = "0.3", features = ["MouseEvent", "KeyboardEvent", "Event"] }
console_error_panic_hook = "0.1"
