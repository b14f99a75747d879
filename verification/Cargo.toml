[package]
name = "fedigents"
version = "0.1.0"
edition = "2021"
publish = false

[dependencies]
anyhow = "=1.0.104"
bip39 = "=2.2.2"
console_error_panic_hook = "0.1"
futures = "0.3"
gloo-storage = "0.3"
gloo-timers = { version = "0.3", features = ["futures"] }
js-sys = "0.3"
leptos = { version = "=0.8.23", features = ["csr"] }
lightning-invoice = "=0.33.3"
pulldown-cmark = { version = "=0.13.6", default-features = false, features = ["html"] }
qrcode = { version = "=0.14.1", default-features = false, features = ["svg"] }
rand = "=0.8.8"
reqwest = { version = "=0.12.28", default-features = false, features = ["json"] }
rig-core = { version = "0.32.0", default-features = false }
schemars = "1"
serde = { version = "1", features = ["derive"] }
serde_json = "=1.0.154"
tracing = "0.1"
tracing-wasm = "0.2"
wasm-bindgen = "0.2"
wasm-bindgen-futures = "0.4"
web-sys = { version = "0.3", features = ["DedicatedWorkerGlobalScope", "Element", "Event", "EventTarget", "FileSystemSyncAccessHandle", "HtmlInputElement", "HtmlSelectElement", "HtmlTextAreaElement", "HtmlVideoElement", "Location", "MessageEvent", "PointerEvent", "Storage", "Window", "Worker"] }
