[package]
name = "nil"
version = "0.1.0"
edition = "2021"
publish = false

[dependencies]
anyhow = "1"
crossbeam-channel = "0.5"
libc = "0.2"
lsp-server = "0.7"
lsp-types = "0.95"
serde_json = "1"
smol_str = "0.2"
tracing = "0.1"
