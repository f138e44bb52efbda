[package]
name = "aj_web"
version = "0.1.0"
edition = "2021"
publish = false

[dependencies]
aj-models = "=0.10.14"
ammonia = "=4.2.4"
pulldown-cmark = "=0.13.6"
chrono = { version = "=0.4.45", features = ["serde"] }
serde = { version = "1", features = ["derive"] }
serde_json = "1"
dioxus = { version = "=0.7.10", features = ["web", "router"] }
dioxus-web = "=0.7.10"
reqwest = { version = "0.12", default-features = false, features = ["json", "multipart"] }
gloo-net = { version = "0.6", features = ["websocket"] }
gloo-timers = { version = "0.3", features = ["futures"] }
futures-util = "0.3"
wasm-bindgen = "0.2"
wasm-bindgen-futures = "0.4"
js-sys = "0.3"
web-sys = { version = "0.3", features = ["Window", "Document", "Element", "HtmlAnchorElement", "HtmlInputElement", "Blob", "Url", "Storage", "Location", "History", "FileList", "File"] }
