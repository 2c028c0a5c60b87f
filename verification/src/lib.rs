//! Device models of a virtual machine monitor, verified.

pub mod balloon;
pub mod codec;
pub mod config;
pub mod ordered;
pub mod probe_laws;
pub mod text;
pub mod display;
pub mod gpu_snapshot;
pub mod guest_memory;
pub mod snapshot_laws;
pub mod snapshot_format;
pub mod snapshot_spelling;
pub mod gpu;
pub mod i2c;
pub mod snd;
pub mod vsock;
pub mod wake_probe;
pub mod wake_profile;
pub mod net;
pub mod console;
