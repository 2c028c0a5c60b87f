//! The vsock device: its features, its config space and its activation.
use crate::codec;
use crate::codec::put_u64;
use vstd::prelude::*;

verus! {

pub const VIRTIO_ID_VSOCK: u32 = 19;

/// The queues: packets for the guest, packets from it, and events.
pub const NUM_QUEUES: usize = 3;

pub const QUEUE_SIZE: u16 = 256;

pub const RXQ_INDEX: usize = 0;

pub const TXQ_INDEX: usize = 1;

pub const EVQ_INDEX: usize = 2;

/// The virtio version, buffers that come back in order, datagrams, and each side telling the other
/// how far to run before the next bell or interrupt.
pub const AVAIL_FEATURES: u64 = 0x1_0000_0000 | 0x8_0000_0000 | 8 | 0x2000_0000;

#[derive(Clone, Copy, PartialEq, Eq, Structural, Debug)]
pub enum VsockError {
    /// An event descriptor could not be made: the system's error number.
    EventFd(i32),
}

#[derive(Clone, Copy, PartialEq, Eq, Structural, Debug)]
pub enum ActivateError {
    BadActivate,
}

pub struct Vsock {
    cid: u64,
    acked_features: u64,
    activated: bool,
    queues: bool,
}

pub struct VsockView {
    pub cid: u64,
    pub acked_features: u64,
    pub activated: bool,
    /// The device has had queues, which a reset leaves with it.
    pub queues: bool,
}

impl View for Vsock {
    type V = VsockView;

    closed spec fn view(&self) -> VsockView {
        VsockView {
            cid: self.cid,
            acked_features: self.acked_features,
            activated: self.activated,
            queues: self.queues,
        }
    }
}

/// `data` after a read of the config space, which is the guest's id. It can be read whole or by
/// its halves, and in no other way.
pub open spec fn config_after(cid: u64, offset: u64, data: Seq<u8>) -> Seq<u8> {
    let all = codec::enc_u64(cid);
    if offset == 0 && data.len() == 8 {
        all
    } else if offset == 0 && data.len() == 4 {
        all.take(4)
    } else if offset == 4 && data.len() == 4 {
        all.skip(4)
    } else {
        data
    }
}

/// What a queue says to the question whether the guest wants an interrupt for what was used. A
/// question that failed counts as a yes.
#[derive(Clone, Copy, PartialEq, Eq, Structural, Debug)]
pub enum Wanted {
    /// There is no such queue.
    NoQueue,
    Says(bool),
    Unknown,
}

impl Wanted {
    pub open spec fn yes(self) -> bool {
        match self {
            Wanted::NoQueue => false,
            Wanted::Says(b) => b,
            Wanted::Unknown => true,
        }
    }

    fn is_yes(self) -> (r: bool)
        ensures
            r == self.yes(),
    {
        match self {
            Wanted::NoQueue => false,
            Wanted::Says(b) => b,
            Wanted::Unknown => true,
        }
    }
}

impl Vsock {
    /// A device for the guest with this id.
    pub fn new(cid: u64) -> (r: Self)
        ensures
            r@ == (VsockView { cid, acked_features: 0, activated: false, queues: false }),
    {
        Vsock { cid, acked_features: 0, activated: false, queues: false }
    }

    pub fn id(&self) -> (r: &'static str)
        ensures
            r@ == "virtio_vsock"@,
    {
        "virtio_vsock"
    }

    pub fn cid(&self) -> (r: u64)
        ensures
            r == self@.cid,
    {
        self.cid
    }

    pub fn avail_features(&self) -> (r: u64)
        ensures
            r == AVAIL_FEATURES,
    {
        AVAIL_FEATURES
    }

    pub fn acked_features(&self) -> (r: u64)
        ensures
            r == self@.acked_features,
    {
        self.acked_features
    }

    pub fn set_acked_features(&mut self, acked_features: u64)
        ensures
            final(self)@ == (VsockView { acked_features, ..old(self)@ }),
    {
        self.acked_features = acked_features;
    }

    pub fn is_activated(&self) -> (r: bool)
        ensures
            r == self@.activated,
    {
        self.activated
    }

    /// Reads the config space.
    pub fn read_config(&self, offset: u64, data: &mut [u8])
        ensures
            final(data)@ == config_after(self@.cid, offset, old(data)@),
    {
        let mut all: Vec<u8> = Vec::new();
        put_u64(&mut all, self.cid);
        proof {
            codec::lemma_le_bytes_len(self.cid as nat, 8);
        }
        let n: usize = data.len();
        let start: usize = if offset == 0 && (n == 8 || n == 4) {
            0
        } else if offset == 4 && n == 4 {
            4
        } else {
            return;
        };
        let ghost cid = codec::enc_u64(self.cid);
        assert(all@ =~= cid);
        let mut i: usize = 0;
        while i < n
            invariant
                i <= n == data@.len(),
                start + n <= 8 == all@.len(),
                forall|k: int| 0 <= k < i ==> #[trigger] data@[k] == all@[start + k],
            decreases n - i,
        {
            data[i] = all[start + i];
            i = i + 1;
        }
        assert(data@ =~= config_after(self@.cid, offset, old(data)@));
    }

    /// Activates the device with this many queues; `signalled` says whether its event loop could be
    /// told.
    pub fn activate(&mut self, queues: usize, signalled: bool) -> (r: Result<(), ActivateError>)
        ensures
            r is Ok == (queues == NUM_QUEUES && signalled),
            final(self)@ == if r is Ok {
                VsockView { activated: true, queues: true, ..old(self)@ }
            } else {
                old(self)@
            },
    {
        if queues != NUM_QUEUES || !signalled {
            return Err(ActivateError::BadActivate);
        }
        self.queues = true;
        self.activated = true;
        Ok(())
    }

    /// Deactivates the device. The threads of the activation are to be told to stop, without
    /// waiting for them, whether it was active or not.
    pub fn reset(&mut self) -> (r: bool)
        ensures
            r,
            final(self)@ == (VsockView { activated: false, ..old(self)@ }),
    {
        self.activated = false;
        true
    }

    /// Whether the guest wants an interrupt, from what each queue says. Both are asked, because
    /// asking starts a queue's count over.
    pub fn needs_interrupt(&self, rx: Wanted, tx: Wanted) -> (r: bool)
        ensures
            r == (self@.activated && (rx.yes() || tx.yes())),
    {
        if !self.activated {
            return false;
        }
        rx.is_yes() || tx.is_yes()
    }
}

/// The guest's id reads the same whole and by its halves.
pub proof fn law_halves_make_the_whole(cid: u64, whole: Seq<u8>, lo: Seq<u8>, hi: Seq<u8>)
    requires
        whole.len() == 8,
        lo.len() == 4,
        hi.len() == 4,
    ensures
        config_after(cid, 0, lo) + config_after(cid, 4, hi) == config_after(cid, 0, whole),
        codec::le_value(config_after(cid, 0, whole)) == cid,
        config_after(cid, 0, lo) == codec::enc_u32((cid % 0x1_0000_0000) as u32),
        config_after(cid, 4, hi) == codec::enc_u32((cid / 0x1_0000_0000) as u32),
{
    let all = codec::enc_u64(cid);
    codec::lemma_le_bytes_len(cid as nat, 8);
    codec::lemma_le_bounds();
    codec::lemma_le_round_trip(cid as nat, 8);
    assert(all.take(4) + all.skip(4) =~= all);
    codec::lemma_le_split(cid as nat, 4, 4);
    codec::lemma_le_bytes_len(cid as nat, 4);
    assert(all.take(4) =~= codec::le_bytes(cid as nat, 4));
    assert(all.skip(4) =~= codec::le_bytes(cid as nat / 0x1_0000_0000, 4));
    codec::lemma_le_mod(cid as nat, 4);
}

/// A queue that cannot say whether the guest waits counts as one whose guest does; one that is not
/// there as one whose guest does not.
pub proof fn law_doubt_is_a_yes(says: bool)
    ensures
        Wanted::Says(says).yes() == says,
        Wanted::Unknown.yes(),
        !Wanted::NoQueue.yes(),
{
}

/// The features on offer, bit by bit: the version, buffers in order, datagrams and event indices.
pub proof fn law_vsock_features()
    ensures
        AVAIL_FEATURES == 0x1_0000_0000 + 0x8_0000_0000 + 8 + 0x2000_0000,
{
    assert(0x1_0000_0000u64 | 0x8_0000_0000 | 8 | 0x2000_0000 == 0x9_2000_0008u64) by (bit_vector);
}

} // verus!
