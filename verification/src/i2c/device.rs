//! The i2c adapter: one request, one message.
//!
//! A request is a header, at most one buffer and a status byte. A request that fails can ask for
//! the one behind it to fail too.
use crate::codec;
use crate::i2c::battery;
use crate::i2c::battery::{BatteryState, BatteryView, SbsBattery};
use vstd::prelude::*;

verus! {

pub const VIRTIO_ID_I2C: u32 = 34;

pub const NUM_QUEUES: usize = 1;

pub const QUEUE_SIZE: u16 = 64;

/// The virtio version, and requests without a buffer.
pub const AVAIL_FEATURES: u64 = 0x1_0000_0000 | 1;

/// The battery's address on the bus.
pub const SBS_BATTERY_ADDR: u16 = 0x0b;

/// A request that fails makes the next one fail.
pub const VIRTIO_I2C_FLAGS_FAIL_NEXT: u32 = 1;

/// The request reads.
pub const VIRTIO_I2C_FLAGS_M_RD: u32 = 2;

pub const VIRTIO_I2C_MSG_OK: u8 = 0;

pub const VIRTIO_I2C_MSG_ERR: u8 = 1;

#[derive(Clone, Copy, PartialEq, Eq, Structural, Debug)]
pub enum I2cError {
    /// An event descriptor could not be made: the system's error number.
    EventFd(i32),
}

#[derive(Clone, Copy, PartialEq, Eq, Structural, Debug)]
pub enum ActivateError {
    BadActivate,
}

/// A buffer of a request.
#[derive(Clone, Copy, PartialEq, Eq, Structural, Debug)]
pub struct I2cBuffer {
    /// Where it lies in the guest.
    pub addr: u64,
    pub len: u32,
    /// The device writes it; otherwise the device reads it.
    pub writable: bool,
}

/// A header behind the address and the flags.
#[derive(Clone, Copy, PartialEq, Eq, Structural, Debug)]
pub struct I2cHeader {
    pub addr: u16,
    pub flags: u32,
}

/// The header's eight bytes: an address, padding and flags.
pub open spec fn header_of(b: Seq<u8>) -> I2cHeader {
    I2cHeader {
        addr: codec::le_value(b.take(2)) as u16,
        flags: codec::le_value(b.subrange(4, 8)) as u32,
    }
}

/// A request's shape: a readable header of eight bytes first, a writable status last, and at most
/// one buffer between them.
pub open spec fn well_shaped(bufs: Seq<I2cBuffer>) -> bool {
    &&& 2 <= bufs.len() <= 3
    &&& !bufs[0].writable
    &&& bufs[0].len >= 8
    &&& bufs.last().writable
    &&& bufs.last().len >= 1
}

/// Whether a request has the shape of one.
pub fn check_shape(bufs: &[I2cBuffer]) -> (r: bool)
    ensures
        r == well_shaped(bufs@),
{
    let n: usize = bufs.len();
    if n < 2 || n > 3 {
        return false;
    }
    let head: I2cBuffer = bufs[0];
    let tail: I2cBuffer = bufs[n - 1];
    !head.writable && head.len >= 8 && tail.writable && tail.len >= 1
}

/// What a request needs before it is answered.
#[derive(Clone, Copy, PartialEq, Eq, Structural, Debug)]
pub enum I2cStep {
    /// Nothing: whether it succeeds is known.
    Settled(bool),
    /// So many bytes of the selected register go into the guest's buffer.
    Read(u32),
    /// The guest's buffer of this length is read.
    Fetch(u32),
}

/// The answer to a request: its status byte, and how many bytes the guest gets with it.
#[derive(Clone, Copy, PartialEq, Eq, Structural, Debug)]
pub struct I2cAnswer {
    pub status: u8,
    pub used: u32,
}

pub struct I2c {
    acked_features: u64,
    activated: bool,
    battery: SbsBattery,
    fail_next: bool,
}

pub struct I2cView {
    pub acked_features: u64,
    pub activated: bool,
    pub battery: BatteryView,
    /// The next request fails whatever it asks.
    pub fail_next: bool,
}

impl View for I2c {
    type V = I2cView;

    closed spec fn view(&self) -> I2cView {
        I2cView {
            acked_features: self.acked_features,
            activated: self.activated,
            battery: self.battery@,
            fail_next: self.fail_next,
        }
    }
}

impl I2cView {
    /// What a request of the right shape leads to. Only the battery is on the bus.
    pub open spec fn begin(self, h: I2cHeader, bufs: Seq<I2cBuffer>) -> I2cStep {
        if self.fail_next || h.addr / 2 != SBS_BATTERY_ADDR {
            I2cStep::Settled(false)
        } else if bufs.len() == 2 {
            I2cStep::Settled(true)
        } else if h.flags & VIRTIO_I2C_FLAGS_M_RD != 0 {
            if !bufs[1].writable {
                I2cStep::Settled(false)
            } else {
                I2cStep::Read(bufs[1].len)
            }
        } else if bufs[1].writable {
            I2cStep::Settled(false)
        } else {
            I2cStep::Fetch(bufs[1].len)
        }
    }

    /// The request is answered: whether the next one fails with it.
    pub open spec fn answered(self, h: I2cHeader, ok: bool) -> Self {
        I2cView {
            fail_next: !ok && h.flags & VIRTIO_I2C_FLAGS_FAIL_NEXT != 0,
            ..self
        }
    }
}

impl I2c {
    pub fn new() -> (r: Self)
        ensures
            r@ == (I2cView {
                acked_features: 0,
                activated: false,
                battery: BatteryView { command: 0, mode: 0 },
                fail_next: false,
            }),
    {
        I2c { acked_features: 0, activated: false, battery: SbsBattery::new(), fail_next: false }
    }

    pub fn id(&self) -> (r: &'static str)
        ensures
            r@ == "virtio_i2c"@,
    {
        "virtio_i2c"
    }

    pub fn avail_features(&self) -> (r: u64)
        ensures
            r == AVAIL_FEATURES,
    {
        AVAIL_FEATURES
    }

    pub fn acked_features(&self) -> (r: u64)
        ensures
            r == self@.acked_features,
    {
        self.acked_features
    }

    pub fn set_acked_features(&mut self, acked_features: u64)
        ensures
            final(self)@ == (I2cView { acked_features, ..old(self)@ }),
    {
        self.acked_features = acked_features;
    }

    pub fn is_activated(&self) -> (r: bool)
        ensures
            r == self@.activated,
    {
        self.activated
    }

    /// Activates the device with this many queues; `signalled` says whether its event loop could be
    /// told.
    pub fn activate(&mut self, queues: usize, signalled: bool) -> (r: Result<(), ActivateError>)
        ensures
            r is Ok == (queues == NUM_QUEUES && signalled),
            final(self)@ == (I2cView { activated: old(self)@.activated || r is Ok, ..old(self)@ }),
    {
        if queues != NUM_QUEUES || !signalled {
            return Err(ActivateError::BadActivate);
        }
        self.activated = true;
        Ok(())
    }

    pub fn reset(&mut self) -> (r: bool)
        ensures
            r,
            final(self)@ == (I2cView { activated: false, ..old(self)@ }),
    {
        self.activated = false;
        true
    }

    /// Reads a request's header.
    pub fn header(bytes: &[u8]) -> (h: I2cHeader)
        requires
            bytes@.len() == 8,
        ensures
            h == header_of(bytes@),
    {
        let addr: u16 = bytes[0] as u16 + 256 * (bytes[1] as u16);
        let flags: u32 = bytes[4] as u32 + 256 * (bytes[5] as u32) + 65536 * (bytes[6] as u32)
            + 16777216 * (bytes[7] as u32);
        proof {
            reveal_with_fuel(codec::le_value, 5);
            let a = bytes@.take(2);
            let f = bytes@.subrange(4, 8);
            assert(a.skip(1).skip(1) =~= Seq::empty());
            assert(f.skip(1).skip(1).skip(1).skip(1) =~= Seq::empty());
        }
        I2cHeader { addr, flags }
    }

    /// Takes up a request of the right shape.
    pub fn begin(&self, h: &I2cHeader, bufs: &[I2cBuffer]) -> (r: I2cStep)
        requires
            well_shaped(bufs@),
        ensures
            r == self@.begin(*h, bufs@),
    {
        if self.fail_next || h.addr / 2 != SBS_BATTERY_ADDR {
            return I2cStep::Settled(false);
        }
        if bufs.len() == 2 {
            return I2cStep::Settled(true);
        }
        let buf: I2cBuffer = bufs[1];
        if h.flags & VIRTIO_I2C_FLAGS_M_RD != 0 {
            if !buf.writable {
                return I2cStep::Settled(false);
            }
            I2cStep::Read(buf.len)
        } else if buf.writable {
            I2cStep::Settled(false)
        } else {
            I2cStep::Fetch(buf.len)
        }
    }

    /// The bytes for the guest's buffer, with the host's battery as it is now. `None` when the
    /// selected register does not answer: the request then fails.
    pub fn read(&self, len: u32, state: &BatteryState) -> (r: Option<Vec<u8>>)
        ensures
            match r {
                Some(b) => battery::register(
                    self@.battery.command,
                    self@.battery.mode,
                    *state,
                ) matches Some(full) && b@ == battery::resized(full, len as nat),
                None => battery::register(self@.battery.command, self@.battery.mode, *state)
                    is None,
            },
    {
        self.battery.read(len as usize, state)
    }

    /// The guest's buffer was read, or could not be: its bytes go to the battery.
    pub fn fetched(&mut self, bytes: Option<&[u8]>) -> (ok: bool)
        ensures
            ok == bytes is Some,
            final(self)@ == match bytes {
                Some(b) => I2cView { battery: old(self)@.battery.written(b@), ..old(self)@ },
                None => old(self)@,
            },
    {
        match bytes {
            Some(b) => self.battery.write(b),
            None => false,
        }
    }

    /// Answers a request that succeeded or not, with `written` bytes in the guest's buffer.
    pub fn answer(&mut self, h: &I2cHeader, ok: bool, written: u32) -> (r: I2cAnswer)
        requires
            written < u32::MAX,
        ensures
            final(self)@ == old(self)@.answered(*h, ok),
            r == (I2cAnswer {
                status: if ok {
                    VIRTIO_I2C_MSG_OK
                } else {
                    VIRTIO_I2C_MSG_ERR
                },
                used: (written + 1) as u32,
            }),
    {
        self.fail_next = !ok && h.flags & VIRTIO_I2C_FLAGS_FAIL_NEXT != 0;
        I2cAnswer {
            status: if ok {
                VIRTIO_I2C_MSG_OK
            } else {
                VIRTIO_I2C_MSG_ERR
            },
            used: written + 1,
        }
    }
}

/// Only the battery answers, at its address: seven bits above the lowest one. A request that is
/// not for it, or that is to fail with the one before, fails and asks for nothing. One without a
/// buffer succeeds. One with a buffer is carried out in the direction that its flag and its buffer
/// agree on, over the whole buffer, and fails where they do not agree.
pub proof fn law_requests_are_carried_out(v: I2cView, h: I2cHeader, bufs: Seq<I2cBuffer>)
    requires
        well_shaped(bufs),
    ensures
        ({
            let step = v.begin(h, bufs);
            let mine = h.addr == 0x16 || h.addr == 0x17;
            let reads = h.flags & 2 != 0;
            &&& v.fail_next || !mine ==> step == I2cStep::Settled(false)
            &&& !v.fail_next && mine && bufs.len() == 2 ==> step == I2cStep::Settled(true)
            &&& !v.fail_next && mine && bufs.len() == 3 ==> {
                &&& reads && bufs[1].writable ==> step == I2cStep::Read(bufs[1].len)
                &&& !reads && !bufs[1].writable ==> step == I2cStep::Fetch(bufs[1].len)
                &&& reads != bufs[1].writable ==> step == I2cStep::Settled(false)
            }
        }),
{
}

/// A request has two or three buffers: eight bytes or more that the guest wrote come first, and a
/// byte or more that the device writes comes last.
pub proof fn law_shape_of_a_request(bufs: Seq<I2cBuffer>)
    ensures
        well_shaped(bufs) ==> bufs.len() == 2 || bufs.len() == 3,
        well_shaped(bufs) ==> !bufs[0].writable && bufs[0].len >= 8,
        well_shaped(bufs) ==> bufs[bufs.len() - 1].writable && bufs[bufs.len() - 1].len >= 1,
        (bufs.len() == 2 || bufs.len() == 3) && !bufs[0].writable && bufs[0].len >= 8
            && bufs[bufs.len() - 1].writable && bufs[bufs.len() - 1].len >= 1 ==> well_shaped(bufs),
{
}

/// A header says its address in its first two bytes and its flags in its last four, low byte
/// first; the two bytes between them say nothing.
pub proof fn law_header_bytes(b: Seq<u8>, c: Seq<u8>)
    requires
        b.len() == 8,
        c.len() == 8,
        forall|i: int| 0 <= i < 8 && i != 2 && i != 3 ==> #[trigger] b[i] == c[i],
    ensures
        header_of(b) == header_of(c),
        header_of(b).addr == b[0] + 256 * b[1],
        header_of(b).flags == b[4] + 256 * b[5] + 65536 * b[6] + 16777216 * b[7],
{
    reveal_with_fuel(codec::le_value, 5);
    let a = b.take(2);
    let f = b.subrange(4, 8);
    assert(a.skip(1).skip(1) =~= Seq::empty());
    assert(f.skip(1).skip(1).skip(1).skip(1) =~= Seq::empty());
    assert(c.take(2) =~= a);
    assert(c.subrange(4, 8) =~= f);
}

/// A request that fails with the flag set makes the one behind it fail, and that one the next if
/// it has the flag too. The first one without the flag ends the chain.
pub proof fn law_failure_is_passed_on(
    v: I2cView,
    h: I2cHeader,
    next: I2cHeader,
    bufs: Seq<I2cBuffer>,
)
    requires
        h.flags & VIRTIO_I2C_FLAGS_FAIL_NEXT != 0,
    ensures
        v.answered(h, false).begin(next, bufs) == I2cStep::Settled(false),
        next.flags & VIRTIO_I2C_FLAGS_FAIL_NEXT == 0 ==> !v.answered(h, false).answered(
            next,
            false,
        ).fail_next,
        !v.answered(h, true).fail_next,
{
}

} // verus!
