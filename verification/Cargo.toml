[package]
name = "deploykeys_ui"
version = "0.1.0"
edition = "2021"
publish = false

[dependencies]
serde = { version = "1", features = ["derive"] }
serde_json = "1"
serde-wasm-bindgen = "0.6"
wasm-bindgen = "0.2"
wasm-bindgen-futures = "0.4"
js-sys = "0.3"
web-sys = { version = "0.3", features = ["Window", "Document", "Element", "Storage", "Navigator", "DomTokenList", "MediaQueryList", "MediaQueryListEvent", "DomRect", "NodeList", "Node", "HtmlElement"] }
leptos = { version = "0.6", features = ["csr"] }
