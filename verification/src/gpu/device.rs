//! The virtio-gpu device: its features, its config space, and the life of its worker.
//!
//! The renderer can be set up once in a process, on one thread. So the worker that owns it is
//! started once, at the first activation, and outlives every reset.
use crate::codec;
use crate::codec::put_u32;
use crate::config;
use crate::gpu::virtio_gpu::VirtioShmRegion;
use vstd::prelude::*;

verus! {

pub const VIRTIO_ID_GPU: u32 = 16;

/// The feature bits: the virtio version, the GL renderer, EDID, resource uuids, blobs and context
/// types.
pub const AVAIL_FEATURES: u64 = 0x1_0000_0000 | 1 | 2 | 4 | 8 | 16;

/// The feature bits of a device without a renderer: the virtio version, EDID and resource uuids.
pub const AVAIL_FEATURES_SOFTWARE_2D: u64 = 0x1_0000_0000 | 2 | 4;

/// The control and the cursor queue.
pub const NUM_QUEUES: usize = 2;

pub const QUEUE_SIZE: u16 = 256;

/// How many capability sets a device with a renderer reports.
pub const NUM_CAPSETS: u32 = 5;

#[derive(Clone, Copy, PartialEq, Eq, Structural, Debug)]
pub enum ActivateError {
    BadActivate,
}

/// What an activation has to do before its transport is handed over.
#[derive(Clone, Copy, PartialEq, Eq, Structural, Debug)]
pub struct ActivatePlan {
    /// Start the worker, with this region for blobs.
    pub spawn: Option<VirtioShmRegion>,
}

pub struct Gpu {
    acked_features: u64,
    activated: bool,
    shm_region: Option<VirtioShmRegion>,
    software_2d: bool,
    num_scanouts: u32,
    worker_started: bool,
}

/// What a device is: its settings and how far its life has gone.
pub struct DeviceView {
    pub acked_features: u64,
    pub activated: bool,
    pub shm_region: Option<VirtioShmRegion>,
    pub software_2d: bool,
    pub num_scanouts: u32,
    pub worker_started: bool,
}

impl View for Gpu {
    type V = DeviceView;

    closed spec fn view(&self) -> DeviceView {
        DeviceView {
            acked_features: self.acked_features,
            activated: self.activated,
            shm_region: self.shm_region,
            software_2d: self.software_2d,
            num_scanouts: self.num_scanouts,
            worker_started: self.worker_started,
        }
    }
}

impl DeviceView {
    /// After an activation, and the region that the worker is started with, where it is.
    pub open spec fn activated(self) -> (Self, Option<VirtioShmRegion>) {
        (
            DeviceView { worker_started: true, ..self },
            if self.worker_started {
                None
            } else {
                self.shm_region
            },
        )
    }

    /// After a reset.
    pub open spec fn reset(self) -> Self {
        DeviceView { activated: false, ..self }
    }

    /// After so many resets.
    pub open spec fn reset_times(self, n: nat) -> Self
        decreases n,
    {
        if n == 0 {
            self
        } else {
            self.reset_times((n - 1) as nat).reset()
        }
    }
}

/// The config space: no pending events, how many scanouts there are and how many capability sets.
pub open spec fn config_bytes(num_scanouts: u32, software_2d: bool) -> Seq<u8> {
    codec::enc_u32(0) + codec::enc_u32(0) + codec::enc_u32(num_scanouts) + codec::enc_u32(
        if software_2d {
            0
        } else {
            NUM_CAPSETS
        },
    )
}

impl Gpu {
    pub fn new(software_2d: bool, num_scanouts: u32) -> (r: Gpu)
        ensures
            r@ == (DeviceView {
                acked_features: 0,
                activated: false,
                shm_region: None,
                software_2d,
                num_scanouts,
                worker_started: false,
            }),
    {
        Gpu {
            acked_features: 0,
            activated: false,
            shm_region: None,
            software_2d,
            num_scanouts,
            worker_started: false,
        }
    }

    pub fn id(&self) -> (r: &'static str)
        ensures
            r@ == "virtio_gpu"@,
    {
        "virtio_gpu"
    }

    /// The features on offer. Without a renderer the guest sees a plain 2D device.
    pub fn avail_features(&self) -> (r: u64)
        ensures
            r == if self@.software_2d {
                AVAIL_FEATURES_SOFTWARE_2D
            } else {
                AVAIL_FEATURES
            },
    {
        if self.software_2d {
            AVAIL_FEATURES_SOFTWARE_2D
        } else {
            AVAIL_FEATURES
        }
    }

    pub fn acked_features(&self) -> (r: u64)
        ensures
            r == self@.acked_features,
    {
        self.acked_features
    }

    pub fn set_acked_features(&mut self, acked_features: u64)
        ensures
            final(self)@ == (DeviceView { acked_features, ..old(self)@ }),
    {
        self.acked_features = acked_features;
    }

    pub fn set_shm_region(&mut self, shm_region: VirtioShmRegion)
        ensures
            final(self)@ == (DeviceView { shm_region: Some(shm_region), ..old(self)@ }),
    {
        self.shm_region = Some(shm_region);
    }

    pub fn shm_region(&self) -> (r: Option<VirtioShmRegion>)
        ensures
            r == self@.shm_region,
    {
        self.shm_region
    }

    pub fn is_activated(&self) -> (r: bool)
        ensures
            r == self@.activated,
    {
        self.activated
    }

    /// Whether the worker was started.
    pub fn worker_started(&self) -> (r: bool)
        ensures
            r == self@.worker_started,
    {
        self.worker_started
    }

    /// Reads the config space.
    pub fn read_config(&self, offset: u64, data: &mut [u8])
        ensures
            final(data)@ == config::config_after(
                config_bytes(self@.num_scanouts, self@.software_2d),
                offset,
                old(data)@,
            ),
    {
        let mut bytes: Vec<u8> = Vec::new();
        put_u32(&mut bytes, 0);
        put_u32(&mut bytes, 0);
        put_u32(&mut bytes, self.num_scanouts);
        put_u32(
            &mut bytes,
            if self.software_2d {
                0
            } else {
                NUM_CAPSETS
            },
        );
        assert(bytes@ =~= config_bytes(self.num_scanouts, self.software_2d));
        config::read_config(bytes.as_slice(), offset, data);
    }

    /// Activates the device with this many queues: says whether the worker has to be started. A
    /// worker cannot be started without a region for blobs.
    pub fn activate(&mut self, queues: usize) -> (r: Result<ActivatePlan, ActivateError>)
        requires
            queues == NUM_QUEUES && !old(self)@.worker_started ==> old(self)@.shm_region is Some,
        ensures
            match r {
                Ok(plan) => {
                    &&& queues == NUM_QUEUES
                    &&& (final(self)@, plan.spawn) == old(self)@.activated()
                },
                Err(_) => queues != NUM_QUEUES && final(self)@ == old(self)@,
            },
    {
        if queues != NUM_QUEUES {
            return Err(ActivateError::BadActivate);
        }
        let spawn: Option<VirtioShmRegion> = if self.worker_started {
            None
        } else {
            self.shm_region
        };
        self.worker_started = true;
        Ok(ActivatePlan { spawn })
    }

    /// The transport was handed to the worker, or the worker was gone.
    pub fn handed_over(&mut self, sent: bool) -> (r: Result<(), ActivateError>)
        ensures
            r is Ok == sent,
            final(self)@ == (DeviceView { activated: old(self)@.activated || sent, ..old(self)@ }),
    {
        if sent {
            self.activated = true;
            Ok(())
        } else {
            Err(ActivateError::BadActivate)
        }
    }

    /// Resets the device. Returns whether there is a worker to tell; it keeps running.
    pub fn reset(&mut self) -> (tell: bool)
        ensures
            tell == old(self)@.worker_started,
            final(self)@ == old(self)@.reset(),
    {
        self.activated = false;
        self.worker_started
    }
}

/// The worker is started once: no activation after the first one starts another, whatever resets
/// lie in between.
pub proof fn law_worker_starts_once(before: DeviceView, resets: nat)
    ensures
        ({
            let (first, _) = before.activated();
            let (_, spawn) = first.reset_times(resets).activated();
            spawn is None
        }),
    decreases resets,
{
    let (first, _) = before.activated();
    assert(first.reset_times(resets).worker_started) by {
        lemma_reset_keeps_worker(first, resets);
    }
}

proof fn lemma_reset_keeps_worker(v: DeviceView, n: nat)
    ensures
        v.reset_times(n).worker_started == v.worker_started,
    decreases n,
{
    if n > 0 {
        lemma_reset_keeps_worker(v, (n - 1) as nat);
    }
}

} // verus!
