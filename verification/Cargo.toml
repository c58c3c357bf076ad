[package]
name = "valin"
version = "0.1.0"
edition = "2021"
publish = false

[dependencies]
ropey = "1"
smallvec = "1"
fxhash = "0.2"
serde = { version = "1", features = ["derive"] }
serde_json = "1"
toml = "0.8"
home = "0.5"
clap = { version = "4", features = ["derive"] }
lsp-types = "0.95"
