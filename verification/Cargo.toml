[package]
name = "sw-cdp1802-io"
version = "0.1.0"
edition = "2021"
publish = false

[dependencies]
yew = { version = "=0.21.0", features = ["csr"] }
wasm-bindgen = "=0.2.130"
web-sys = { version = "=0.3.107", features = ["Window", "Location", "Event", "EventTarget", "HtmlSelectElement", "HtmlTextAreaElement", "InputEvent", "MouseEvent"] }
