//! virtio-i2c with one slave: a smart battery that shows the guest the host's battery.
pub mod battery;
pub mod device;
pub mod chain;
