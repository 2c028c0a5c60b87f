//! virtio-console: its ports.
pub mod port;
