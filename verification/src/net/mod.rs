//! virtio-net: the device around a connection to a gateway.
pub mod device;
