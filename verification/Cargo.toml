[package]
name = "libjankscripten"
version = "0.1.0"
edition = "2021"
publish = false

[dependencies]
parity-wasm = "0.41"
im-rc = "15"
clap = { version = "3", features = ["derive"] }
combine = "3"
combine-language = "3"
thiserror = "1"
