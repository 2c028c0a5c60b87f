//! The sound device between activations: its features, its config space and the life of its
//! worker.
use crate::snd::protocol::VirtioSndConfig;
use vstd::prelude::*;

verus! {

pub const VIRTIO_ID_SOUND: u32 = 25;

/// The queues: control, events, playback and recording.
pub const NUM_QUEUES: usize = 4;

pub const QUEUE_SIZE: u16 = 64;

pub const CONTROL_INDEX: usize = 0;

pub const EVENT_INDEX: usize = 1;

pub const TX_INDEX: usize = 2;

pub const RX_INDEX: usize = 3;

/// The virtio version, and nothing else.
pub const AVAIL_FEATURES: u64 = 0x1_0000_0000;

#[derive(Clone, Copy, PartialEq, Eq, Structural, Debug)]
pub enum SndError {
    /// An event descriptor could not be made: the system's error number.
    EventFd(i32),
}

#[derive(Clone, Copy, PartialEq, Eq, Structural, Debug)]
pub enum ActivateError {
    BadActivate,
}

pub struct Snd {
    acked_features: u64,
    activated: bool,
    capture_enabled: bool,
    worker: bool,
}

pub struct SndView {
    pub acked_features: u64,
    pub activated: bool,
    pub capture_enabled: bool,
    /// A worker runs.
    pub worker: bool,
}

impl View for Snd {
    type V = SndView;

    closed spec fn view(&self) -> SndView {
        SndView {
            acked_features: self.acked_features,
            activated: self.activated,
            capture_enabled: self.capture_enabled,
            worker: self.worker,
        }
    }
}

/// The config space: a stream and a channel map for playback, and for the microphone if it is
/// enabled.
pub open spec fn config_of(capture_enabled: bool) -> VirtioSndConfig {
    let n: u32 = if capture_enabled {
        2
    } else {
        1
    };
    VirtioSndConfig { jacks: 0, streams: n, chmaps: n, controls: 0 }
}

/// `data` after a read of the configuration: a read that does not lie inside it whole gets
/// nothing.
pub open spec fn config_after(config: Seq<u8>, offset: u64, data: Seq<u8>) -> Seq<u8> {
    if offset + data.len() <= config.len() {
        config.subrange(offset as int, offset + data.len())
    } else {
        data
    }
}

impl Snd {
    /// A device, with a microphone or without.
    pub fn new(capture_enabled: bool) -> (r: Self)
        ensures
            r@ == (SndView {
                acked_features: 0,
                activated: false,
                capture_enabled,
                worker: false,
            }),
    {
        Snd { acked_features: 0, activated: false, capture_enabled, worker: false }
    }

    pub fn id(&self) -> (r: &'static str)
        ensures
            r@ == "virtio_snd"@,
    {
        "virtio_snd"
    }

    pub fn avail_features(&self) -> (r: u64)
        ensures
            r == AVAIL_FEATURES,
    {
        AVAIL_FEATURES
    }

    pub fn acked_features(&self) -> (r: u64)
        ensures
            r == self@.acked_features,
    {
        self.acked_features
    }

    pub fn set_acked_features(&mut self, acked_features: u64)
        ensures
            final(self)@ == (SndView { acked_features, ..old(self)@ }),
    {
        self.acked_features = acked_features;
    }

    pub fn is_activated(&self) -> (r: bool)
        ensures
            r == self@.activated,
    {
        self.activated
    }

    pub fn config(&self) -> (r: VirtioSndConfig)
        ensures
            r == config_of(self@.capture_enabled),
    {
        let n: u32 = if self.capture_enabled {
            2
        } else {
            1
        };
        VirtioSndConfig { jacks: 0, streams: n, chmaps: n, controls: 0 }
    }

    /// Reads the config space.
    pub fn read_config(&self, offset: u64, data: &mut [u8])
        ensures
            final(data)@ == config_after(
                config_of(self@.capture_enabled).bytes(),
                offset,
                old(data)@,
            ),
    {
        let src: Vec<u8> = self.config().to_bytes();
        let n: usize = data.len();
        if offset > 16 || n > 16 || offset + n as u64 > 16 {
            return;
        }
        let start: usize = offset as usize;
        let mut i: usize = 0;
        while i < n
            invariant
                i <= n == data@.len(),
                start + n <= 16 == src@.len(),
                forall|k: int| 0 <= k < i ==> #[trigger] data@[k] == src@[start + k],
            decreases n - i,
        {
            data[i] = src[start + i];
            i = i + 1;
        }
        assert(data@ =~= src@.subrange(start as int, start + n));
    }

    /// Activates the device with this many queues; `stop_ready` says whether there is a way to tell
    /// a worker to stop. Returns whether an old worker is to be stopped before the new one starts.
    pub fn activate(&mut self, queues: usize, stop_ready: bool) -> (r: Result<bool, ActivateError>)
        ensures
            match r {
                Ok(stop) => queues == NUM_QUEUES && stop_ready && stop == old(self)@.worker
                    && final(self)@ == (SndView { activated: true, worker: true, ..old(self)@ }),
                Err(_) => !(queues == NUM_QUEUES && stop_ready) && final(self)@ == old(self)@,
            },
    {
        if queues != NUM_QUEUES || !stop_ready {
            return Err(ActivateError::BadActivate);
        }
        let stop = self.stop_worker();
        self.worker = true;
        self.activated = true;
        Ok(stop)
    }

    /// Gives the worker up. Returns whether there was one: it is to be told to stop, and waited for
    /// if it could be told.
    pub fn stop_worker(&mut self) -> (r: bool)
        ensures
            r == old(self)@.worker,
            final(self)@ == (SndView { worker: false, ..old(self)@ }),
    {
        let r = self.worker;
        self.worker = false;
        r
    }

    /// Deactivates the device. Returns whether a worker is to be stopped.
    pub fn reset(&mut self) -> (stop: bool)
        ensures
            stop == old(self)@.worker,
            final(self)@ == (SndView { activated: false, worker: false, ..old(self)@ }),
    {
        let stop = self.stop_worker();
        self.activated = false;
        stop
    }
}

} // verus!
