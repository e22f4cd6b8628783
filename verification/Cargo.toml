[package]
name = "parsel"
version = "0.1.0"
edition = "2021"
publish = false

[dependencies]
curl-rest = "=0.6.0"
human-panic = "=2.0.8"
ratatui = "=0.30.2"
reqwest = { version = "=0.13.5", features = ["blocking", "json", "query"] }
serde_json = { version = "=1.0.154", features = ["float_roundtrip"] }
tree-sitter-highlight = "=0.27.1"
tree-sitter-html = "=0.23.2"
tree-sitter-json = "=0.24.8"
tui-input = { version = "=0.15.5", default-features = false }
url = "=2.5.8"
