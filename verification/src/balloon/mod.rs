//! virtio-balloon: guest memory that the guest does not use goes back to the host.
pub mod reclaim;
pub mod reclaim_laws;
pub mod runs;
pub mod inflate;
pub mod device;
pub mod queues;
pub mod drain;
pub mod drain_laws;
pub mod page_laws;
