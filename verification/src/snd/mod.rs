//! virtio-sound: playback always, a microphone where it is asked for.
//!
//! The guest's samples are signed 16-bit at 48 kHz. A buffer to play goes back to the guest once
//! its frames were really played, so that the guest's clock is that of the host's hardware.
pub mod protocol;
pub mod samples;
pub mod ring;
pub mod stream;
pub mod unit;
pub mod audibility;
pub mod trace;
pub mod worker;
pub mod worker_laws;
pub mod buffer_laws;
pub mod events;
pub mod device;
pub mod sound_laws;
