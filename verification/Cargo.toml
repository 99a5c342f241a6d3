[package]
name = "rehype_tree_sitter"
version = "0.1.0"
edition = "2021"
publish = false

[dependencies]
tree-sitter = "=0.27.1"
tree-sitter-highlight = "=0.27.1"
tree-sitter-python = "=0.25.0"
tree-sitter-javascript = "=0.25.0"
tree-sitter-typescript = "=0.23.2"
tree-sitter-c = "=0.24.2"
tree-sitter-bash = "=0.25.1"
tree-sitter-ruby = "=0.23.1"
tree-sitter-nix = "=0.3.0"
tree-sitter-printf = "*"
tree-sitter-comment = "*"
napi = "=3.15.0"
napi-derive = "=3.6.13"
anyhow = "=1.0.104"
