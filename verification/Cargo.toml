[package]
name = "rust_rsm"
version = "0.1.0"
edition = "2021"
publish = false

[dependencies]
rand = "=0.8.8"
time = { version = "=0.3.55", features = ["local-offset"] }
libc = "=0.2.190"
mio = { version = "=0.8.11", features = ["os-poll", "os-ext", "net"] }
serde = { version = "=1.0.229", features = ["derive"] }
serde_json = "=1.0.151"
tiny_http = "=0.12.0"
