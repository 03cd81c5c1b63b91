[package]
name = "gloam"
version = "0.1.0"
edition = "2021"
publish = false

[dependencies]
data-url = "=0.3.2"
image = { version = "=0.25.10", default-features = false, features = ["png", "jpeg", "gif"] }
js-sys = "=0.3.106"
wasm-bindgen = "=0.2.129"
web-sys = { version = "=0.3.106", features = ["console", "Window", "Performance", "Document", "Element", "HtmlElement", "Node", "HtmlCanvasElement", "CanvasRenderingContext2d", "ImageData"] }
