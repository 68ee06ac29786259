[package]
name = "javars"
version = "0.1.0"
edition = "2021"
publish = false

[dependencies]
fancy-regex = "=0.20.0"
fusevm = { version = "=0.26.10", features = ["jit", "ffi"] }
libc = "0.2"
lsp-server = "=0.7.9"
lsp-types = "=0.97.0"
serde = { version = "1", features = ["derive"] }
serde_json = "1"
