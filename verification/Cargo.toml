[package]
name = "flights"
version = "0.1.0"
edition = "2021"
publish = false

[dependencies]
anyhow = "1"
gloo-net = { version = "*", default-features = false, features = ["http", "json"] }
leptos = { version = "0.8", features = ["csr"] }
ratatui = "0.30"
serde = { version = "1", features = ["derive"] }
serde_json = "1"
thiserror = "2"
tiny_http = "0.12"
toml = "0.9"
ureq = { version = "3", features = ["json"] }
wasm-bindgen = "*"
web-sys = { version = "*", features = ["CanvasRenderingContext2d", "HtmlCanvasElement", "Window", "Location"] }
