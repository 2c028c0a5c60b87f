//! The network device: its features, its config space, and a connection that outlives its resets.
//!
//! The guest resets the device when it wakes from sleep. The worker is stopped then, and gives the
//! connection to the gateway back, so that the next activation goes on with it: to connect again
//! would lose the gateway.
use crate::codec;
use crate::codec::{put_bytes, put_u16};
use crate::config;
use vstd::prelude::*;
use vstd::string::*;

verus! {

pub const VIRTIO_ID_NET: u32 = 1;

/// The queues: packets for the guest and packets from it.
pub const NUM_QUEUES: usize = 2;

/// The device has an address of its own.
pub const FEATURE_MAC: u64 = 0x20;

/// Each side tells the other how far to run before the next bell or interrupt.
pub const FEATURE_EVENT_IDX: u64 = 0x2000_0000;

pub const FEATURE_VERSION_1: u64 = 0x1_0000_0000;

/// Why a packet could not be had from the gateway.
#[derive(Clone, Copy, PartialEq, Eq, Structural, Debug)]
pub enum ReadError {
    NothingRead,
    /// The system's error number.
    Internal(i32),
}

/// Why a packet could not be given to the gateway.
#[derive(Clone, Copy, PartialEq, Eq, Structural, Debug)]
pub enum WriteError {
    NothingWritten,
    PartialWrite,
    ProcessNotRunning,
    /// The system's error number.
    Internal(i32),
}

/// Why the device itself failed.
#[derive(Clone, Copy, PartialEq, Eq, Structural, Debug)]
pub enum DeviceError {
    FailedReadTap,
    /// The system's error number.
    FailedSignalingUsedQueue(i32),
    /// The system's error number.
    IoError(i32),
    NoAvailBuffers,
    PayloadExpected,
    MalformedPayload,
    MalformedDescriptor,
}

/// Why a queue failed.
#[derive(Clone, Copy, PartialEq, Eq, Structural, Debug)]
pub enum QueueError {
    DescIndexOutOfBounds(u16),
    UsedRing,
}

/// Why a buffer of the guest's could not be filled.
#[derive(Clone, Copy, PartialEq, Eq, Structural, Debug)]
pub enum FrontendError {
    DescriptorChainTooSmall,
    EmptyQueue,
    GuestMemory,
    QueueError(QueueError),
    ReadOnlyDescriptor,
}

/// Why packets for the guest stopped.
#[derive(Clone, Copy, PartialEq, Eq, Structural, Debug)]
pub enum RxError {
    Backend(ReadError),
    DeviceError(DeviceError),
}

/// Why packets from the guest stopped.
#[derive(Clone, Copy, PartialEq, Eq, Structural, Debug)]
pub enum TxError {
    Backend(WriteError),
    DeviceError(DeviceError),
    QueueError(QueueError),
}

/// Where the gateway is. A path is given by its bytes.
#[derive(PartialEq, Eq, Debug)]
pub enum VirtioNetBackend {
    UnixstreamFd(i32),
    UnixstreamPath(Vec<u8>),
    UnixgramFd(i32),
    UnixgramPath(Vec<u8>, bool),
    Tap(String),
}

#[derive(Clone, Copy, PartialEq, Eq, Structural, Debug)]
pub enum ActivateError {
    BadActivate,
}

/// What an activation starts its worker with.
#[derive(Clone, Copy, PartialEq, Eq, Structural, Debug)]
pub enum NetStart {
    /// The connection that the device holds.
    Reuse,
    /// A new connection, of which `connected` is to be told.
    Connect,
}

pub struct Net {
    id: String,
    cfg_backend: VirtioNetBackend,
    avail_features: u64,
    acked_features: u64,
    activated: bool,
    mac: [u8; 6],
    worker: bool,
    connection: bool,
}

pub struct NetView {
    pub id: Seq<char>,
    pub cfg_backend: VirtioNetBackend,
    pub avail_features: u64,
    pub acked_features: u64,
    pub activated: bool,
    pub mac: Seq<u8>,
    /// A worker runs, with a connection.
    pub worker: bool,
    /// The device holds a connection that no worker has.
    pub connection: bool,
}

impl View for Net {
    type V = NetView;

    closed spec fn view(&self) -> NetView {
        NetView {
            id: self.id@,
            cfg_backend: self.cfg_backend,
            avail_features: self.avail_features,
            acked_features: self.acked_features,
            activated: self.activated,
            mac: self.mac@,
            worker: self.worker,
            connection: self.connection,
        }
    }
}

/// The config space: the address, a status and a number of queue pairs.
pub open spec fn config_bytes(mac: Seq<u8>) -> Seq<u8> {
    mac + codec::enc_u16(0) + codec::enc_u16(0)
}

impl NetView {
    /// After an activation that can begin.
    pub open spec fn activating(self) -> Self {
        if self.connection {
            NetView { activated: true, worker: true, connection: false, ..self }
        } else {
            self
        }
    }

    /// After an activation's new connection was made, or could not be.
    pub open spec fn after_connect(self, ok: bool) -> Self {
        if ok {
            NetView { activated: true, worker: true, ..self }
        } else {
            self
        }
    }

    /// After a reset, of which a worker gave its connection back or did not.
    pub open spec fn after_reset(self, given_back: bool) -> Self {
        NetView {
            activated: false,
            worker: false,
            connection: self.connection || (self.worker && given_back),
            ..self
        }
    }
}

impl Net {
    /// A device at this address, with features beside those that every one has.
    pub fn new(id: String, cfg_backend: VirtioNetBackend, mac: [u8; 6], features: u32) -> (r: Self)
        ensures
            r@ == (NetView {
                id: id@,
                cfg_backend,
                avail_features: features as u64 | FEATURE_MAC | FEATURE_EVENT_IDX
                    | FEATURE_VERSION_1,
                acked_features: 0,
                activated: false,
                mac: mac@,
                worker: false,
                connection: false,
            }),
    {
        Net {
            id,
            cfg_backend,
            avail_features: features as u64 | FEATURE_MAC | FEATURE_EVENT_IDX | FEATURE_VERSION_1,
            acked_features: 0,
            activated: false,
            mac,
            worker: false,
            connection: false,
        }
    }

    pub fn id(&self) -> (r: &str)
        ensures
            r@ == self@.id,
    {
        self.id.as_str()
    }

    /// Where the gateway is.
    pub fn backend(&self) -> (r: &VirtioNetBackend)
        ensures
            *r == self@.cfg_backend,
    {
        &self.cfg_backend
    }

    pub fn avail_features(&self) -> (r: u64)
        ensures
            r == self@.avail_features,
    {
        self.avail_features
    }

    pub fn acked_features(&self) -> (r: u64)
        ensures
            r == self@.acked_features,
    {
        self.acked_features
    }

    pub fn set_acked_features(&mut self, acked_features: u64)
        ensures
            final(self)@ == (NetView { acked_features, ..old(self)@ }),
    {
        self.acked_features = acked_features;
    }

    pub fn is_activated(&self) -> (r: bool)
        ensures
            r == self@.activated,
    {
        self.activated
    }

    /// Reads the config space.
    pub fn read_config(&self, offset: u64, data: &mut [u8])
        ensures
            final(data)@ == config::config_after(config_bytes(self@.mac), offset, old(data)@),
    {
        let mut bytes: Vec<u8> = Vec::new();
        put_bytes(&mut bytes, self.mac.as_slice());
        put_u16(&mut bytes, 0);
        put_u16(&mut bytes, 0);
        assert(bytes@ =~= config_bytes(self@.mac));
        config::read_config(bytes.as_slice(), offset, data);
    }

    /// Begins an activation with this many queues; `stop_ready` says whether there is a way to tell
    /// a worker to stop.
    pub fn activate(&mut self, queues: usize, stop_ready: bool) -> (r: Result<
        NetStart,
        ActivateError,
    >)
        ensures
            match r {
                Ok(start) => {
                    &&& queues == NUM_QUEUES
                    &&& stop_ready
                    &&& start == if old(self)@.connection {
                        NetStart::Reuse
                    } else {
                        NetStart::Connect
                    }
                    &&& final(self)@ == old(self)@.activating()
                },
                Err(_) => !(queues == NUM_QUEUES && stop_ready) && final(self)@ == old(self)@,
            },
    {
        if queues != NUM_QUEUES || !stop_ready {
            return Err(ActivateError::BadActivate);
        }
        if self.connection {
            self.connection = false;
            self.worker = true;
            self.activated = true;
            Ok(NetStart::Reuse)
        } else {
            Ok(NetStart::Connect)
        }
    }

    /// The new connection was made, or could not be: then the activation fails.
    pub fn connected(&mut self, ok: bool) -> (r: Result<(), ActivateError>)
        ensures
            r is Ok == ok,
            final(self)@ == old(self)@.after_connect(ok),
    {
        if !ok {
            return Err(ActivateError::BadActivate);
        }
        self.worker = true;
        self.activated = true;
        Ok(())
    }

    /// Whether a reset has a worker to stop and to wait for.
    pub fn has_worker(&self) -> (r: bool)
        ensures
            r == self@.worker,
    {
        self.worker
    }

    /// Deactivates the device, after its worker was stopped, if it had one; `given_back` says
    /// whether the worker gave its connection back.
    pub fn reset(&mut self, given_back: bool) -> (r: bool)
        ensures
            r,
            final(self)@ == old(self)@.after_reset(given_back),
    {
        if self.worker {
            self.worker = false;
            if given_back {
                self.connection = true;
            }
        }
        self.activated = false;
        true
    }
}

/// A connection outlives a reset: the next activation goes on with it.
pub proof fn law_connection_outlives_reset(v: NetView)
    requires
        v.worker,
    ensures
        v.after_reset(true).connection,
        v.after_reset(true).activating().worker,
        v.after_reset(true).activating().activated,
        !v.after_reset(true).activating().connection,
        v.after_reset(true).after_reset(true) == v.after_reset(true),
{
}

/// A connection is with the worker or with the device, never with both.
pub proof fn law_one_holder(v: NetView, given_back: bool, ok: bool)
    requires
        !(v.worker && v.connection),
    ensures
        !(v.activating().worker && v.activating().connection),
        !(v.after_reset(given_back).worker && v.after_reset(given_back).connection),
        !v.connection ==> !(v.after_connect(ok).worker && v.after_connect(ok).connection),
{
}

/// The config space begins with the device's address; nothing else is in it.
pub proof fn law_address_comes_first(mac: Seq<u8>, i: int)
    requires
        mac.len() == 6,
        0 <= i < 10,
    ensures
        config_bytes(mac).len() == 10,
        config_bytes(mac)[i] == if i < 6 {
            mac[i]
        } else {
            0
        },
{
    codec::lemma_le_bytes_len(0, 2);
    reveal_with_fuel(codec::le_bytes, 3);
}

/// An activation runs only with a connection: the one that the device holds, or a new one. Where no
/// new one can be made the device is as it was. A worker that does not give its connection back
/// leaves none, and a reset leaves a connection that the device holds where it is.
pub proof fn law_activations_have_a_connection(v: NetView, ok: bool, given_back: bool)
    requires
        !v.worker,
        !v.activated,
    ensures
        v.connection ==> v.activating().worker && v.activating().activated
            && !v.activating().connection,
        !v.connection ==> v.activating() == v,
        v.after_connect(ok).worker == ok,
        v.after_connect(ok).activated == ok,
        !ok ==> v.after_connect(ok) == v,
        v.after_reset(given_back) == v,
        !v.connection ==> !v.after_connect(true).after_reset(false).connection,
        !v.connection ==> v.after_connect(true).after_reset(true).connection,
        !v.after_connect(true).after_reset(given_back).activated,
        !v.after_connect(true).after_reset(given_back).worker,
{
}

} // verus!
