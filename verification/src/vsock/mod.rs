//! virtio-vsock: how the device drains its queues, when it interrupts the guest, and when it sets
//! the guest's clock.
pub mod drain;
pub mod device;
pub mod timesync;
