//! The virtio-gpu device: its journal, fences, scanouts and command processing.

pub mod protocol;
pub mod trace;
pub mod journal;
pub mod journal_laws;
pub mod journal_effects;
pub mod fence;
pub mod scanout;
pub mod present;
pub mod resource;
pub mod virtio_gpu;
pub mod payload;
pub mod step;
pub mod memory;
pub mod flush;
pub mod command;
pub mod queue;
pub mod worker;
pub mod device;
pub mod command_laws;
pub mod command_effects;
pub mod picture_laws;
pub mod present_laws;
pub mod restore_laws;
pub mod session_laws;
pub mod command_refusals;
pub mod capture;
pub mod replay;
pub mod ack;
pub mod channels;
