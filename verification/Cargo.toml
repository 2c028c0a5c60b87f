[package]
name = "devices"
version = "0.1.0"
edition = "2021"
publish = false

[dependencies]
crossbeam-channel = "0.5"
libc = "0.2"
log = "0.4"
vm-memory = { version = "0.16", features = ["backend-mmap"] }

[dev-dependencies]
virtio-bindings = "0.2"
