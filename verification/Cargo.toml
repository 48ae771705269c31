[package]
name = "unity_ls"
version = "0.1.0"
edition = "2021"
publish = false

[dependencies]
fxhash = "=0.2.1"
gen-lsp-types = { version = "=0.11.0", features = ["url"] }
lsp-server = "=0.10.0"
serde = { version = "=1.0.229", features = ["derive"] }
serde_json = "=1.0.154"
thiserror = "=2.0.21"
tracing = "=0.1.44"
tracing-subscriber = "=0.3.23"
tree-sitter = "=0.27.1"
tree-sitter-c-sharp = "=0.23.5"
walkdir = "=2.5.0"
