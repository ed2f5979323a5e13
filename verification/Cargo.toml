[package]
name = "relyzer_swc"
version = "0.1.0"
edition = "2021"
publish = false

[dependencies]
js-sys = "*"
serde = { version = "*", features = ["derive"] }
serde_json = "*"
swc_common = "*"
swc_ecma_ast = { version = "*", features = ["serde-impl"] }
swc_ecma_parser = "*"
swc_ecma_visit = "*"
swc_plugin_macro = "*"
swc_plugin_proxy = "*"
wasm-bindgen = "*"
