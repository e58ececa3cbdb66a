[package]
name = "declart-core"
version = "0.19.0"
edition = "2021"
publish = false

[dependencies]
toml = "*"
serde = { version = "*", features = ["derive"] }
serde_json = "*"
thiserror = "*"
anyhow = "*"
clap = { version = "*", features = ["derive"] }
fontdue = "*"
notify = "*"
resvg = "*"
wasm-bindgen = "*"
