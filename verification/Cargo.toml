[package]
name = "request_lifecycle"
version = "0.1.0"
edition = "2021"
publish = false

[dependencies]
bytes = "1"
cookie = "0.18"
cookie_store = "0.21"
futures-core = "0.3"
futures-util = "0.3"
http = "1"
js-sys = "0.3"
log = "0.4"
mime_guess = "2"
percent-encoding = "2"
time = "0.3"
url = "2"
wasm-bindgen = "0.2"
wasm-bindgen-futures = "0.4"
web-sys = { version = "0.3", features = ["Headers", "Request", "RequestInit", "RequestRedirect", "Response", "Window"] }
