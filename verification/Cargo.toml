[package]
name = "kanban-wasm"
version = "0.3.0"
edition = "2021"
publish = false

[dependencies]
uuid = { version = "1", features = ["v4", "js"] }
mime_guess = "2"
serde = { version = "1", features = ["derive"] }
serde_json = "1"
leptos = { version = "0.6", features = ["csr"] }
gloo-timers = "0.3"
web-sys = { version = "0.3", features = ["Storage", "Window"] }
tiny_http = "0.12"
rust-embed = "8"
open = "5"
