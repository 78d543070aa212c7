[package]
name = "sierpinski"
version = "0.1.0"
edition = "2021"
publish = false

[dependencies]
wasm-bindgen = "*"
browser-panic-hook = "*"

[dependencies.web-sys]
version = "*"
features = [
    "Window",
    "Document",
    "Element",
    "Node",
    "HtmlElement",
    "HtmlCanvasElement",
    "CanvasRenderingContext2d",
    "HtmlImageElement",
]
