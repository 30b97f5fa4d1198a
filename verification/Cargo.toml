[package]
name = "userland"
version = "0.1.0"
edition = "2021"
publish = false

[dependencies]
slotmap = "=1.1.1"
serde = { version = "=1.0.229", features = ["derive"] }
toml = "=1.1.8"
dirs = "=7.0.0"
x11-clipboard = "=0.9.3"
wl-clipboard-rs = "=0.9.5"
image = { version = "*", default-features = false, features = ["png"] }
