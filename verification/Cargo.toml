[package]
name = "landlock_observability"
version = "0.1.0"
edition = "2021"
publish = false

[dependencies]
libbpf-rs = { version = "=0.25.0", default-features = false }
