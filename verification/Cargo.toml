[package]
name = "treesitter_index"
version = "0.1.0"
edition = "2021"
publish = false

[dependencies]
tree-sitter = "=0.27.1"
tree-sitter-go = "=0.25.0"
tree-sitter-java = "=0.23.5"
tree-sitter-javascript = "=0.25.0"
tree-sitter-md = "*"
tree-sitter-python = "=0.25.0"
tree-sitter-rust = "=0.24.2"
tree-sitter-typescript = "=0.23.2"
regex = "=1.13.1"
ignore = "=0.4.34"
serde = { version = "=1.0.229", features = ["derive"] }
serde_json = "=1.0.154"
