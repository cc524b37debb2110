[package]
name = "walk_the_dog"
version = "0.1.0"
edition = "2021"
publish = false

[dependencies]
anyhow = "*"
async-trait = "*"
console_error_panic_hook = "*"
futures = "*"
js-sys = "*"
rand = "*"
serde = { version = "*", features = ["derive"] }
serde-wasm-bindgen = "*"
wasm-bindgen = "*"
wasm-bindgen-futures = "*"
web-sys = { version = "*", features = ["AudioBuffer", "AudioBufferSourceNode", "AudioContext", "AudioDestinationNode", "AudioNode", "CanvasRenderingContext2d", "Document", "Element", "HtmlCanvasElement", "HtmlElement", "HtmlImageElement", "KeyboardEvent", "Performance", "Response", "Window", "console"] }
