[package]
name = "pi_rs"
version = "0.1.0-dev"
edition = "2021"
publish = false

[dependencies]
crossterm = "0.29"
pulldown-cmark = { version = "0.13", default-features = false }
ratatui = "0.30"
rmp-serde = "1"
runefix-core = "*"
serde = { version = "1", features = ["derive"] }
serde_json = "1"
tokio = { version = "1", features = ["full"] }
tree-sitter-bash = "*"
tree-sitter-highlight = "*"
tree-sitter-javascript = "*"
tree-sitter-json = "*"
tree-sitter-rust = "*"
ts-rs = "*"
uuid = { version = "1", features = ["v7"] }
