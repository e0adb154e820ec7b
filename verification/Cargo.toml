[package]
name = "rooting_forms"
version = "0.1.0"
edition = "2021"
publish = false

[dependencies]
litrs = { version = "*", default-features = false }
proc-macro2 = "1"
quote = "1"
rooting = "*"
syn = { version = "1", features = ["full"] }
wasm-bindgen = "0.2"
web-sys = { version = "0.3", features = ["Event", "EventTarget", "HtmlInputElement", "HtmlSelectElement"] }
