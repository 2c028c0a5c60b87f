//! The virtio-sound wire format.
//!
//! Every message is a row of little-endian fields without padding between them.
use crate::codec;
use crate::codec::{put_bytes, put_u32, put_u64, put_u8, Cursor};
use vstd::prelude::*;

verus! {

pub const VIRTIO_SND_R_JACK_INFO: u32 = 1;

pub const VIRTIO_SND_R_PCM_INFO: u32 = 0x0100;

pub const VIRTIO_SND_R_PCM_SET_PARAMS: u32 = 0x0101;

pub const VIRTIO_SND_R_PCM_PREPARE: u32 = 0x0102;

pub const VIRTIO_SND_R_PCM_RELEASE: u32 = 0x0103;

pub const VIRTIO_SND_R_PCM_START: u32 = 0x0104;

pub const VIRTIO_SND_R_PCM_STOP: u32 = 0x0105;

pub const VIRTIO_SND_R_CHMAP_INFO: u32 = 0x0200;

pub const VIRTIO_SND_S_OK: u32 = 0x8000;

pub const VIRTIO_SND_S_BAD_MSG: u32 = 0x8001;

pub const VIRTIO_SND_S_NOT_SUPP: u32 = 0x8002;

pub const VIRTIO_SND_S_IO_ERR: u32 = 0x8003;

pub const VIRTIO_SND_D_OUTPUT: u8 = 0;

pub const VIRTIO_SND_D_INPUT: u8 = 1;

/// The bit of signed 16-bit samples among a stream's formats.
pub const VIRTIO_SND_PCM_FMT_S16: u8 = 5;

pub const VIRTIO_SND_PCM_FMT_FLOAT: u8 = 19;

pub const VIRTIO_SND_PCM_RATE_44100: u8 = 6;

/// The bit of 48 kHz among a stream's rates.
pub const VIRTIO_SND_PCM_RATE_48000: u8 = 7;

pub const VIRTIO_SND_CHMAP_MONO: u8 = 2;

pub const VIRTIO_SND_CHMAP_FL: u8 = 3;

pub const VIRTIO_SND_CHMAP_FR: u8 = 4;

pub const VIRTIO_SND_CHMAP_MAX_SIZE: usize = 18;

/// The number in the four bytes at `at`.
pub open spec fn u32_of(b: Seq<u8>, at: int) -> u32 {
    codec::le_value(b.subrange(at, at + 4)) as u32
}

fn u32_at(b: &[u8], at: usize) -> (r: u32)
    requires
        at + 4 <= b@.len(),
    ensures
        r == u32_of(b@, at as int),
{
    let mut c = Cursor { data: b, pos: at };
    proof {
        assert(c.rest().take(4) =~= b@.subrange(at as int, at + 4));
    }
    match c.u32() {
        Some(v) => v,
        None => {
            assert(false);
            0
        },
    }
}

/// The config space: how many there are of each thing.
#[derive(Clone, Copy, PartialEq, Eq, Structural, Debug)]
pub struct VirtioSndConfig {
    pub jacks: u32,
    pub streams: u32,
    pub chmaps: u32,
    pub controls: u32,
}

impl VirtioSndConfig {
    pub open spec fn bytes(self) -> Seq<u8> {
        codec::enc_u32(self.jacks) + codec::enc_u32(self.streams) + codec::enc_u32(self.chmaps)
            + codec::enc_u32(self.controls)
    }

    pub fn to_bytes(&self) -> (r: Vec<u8>)
        ensures
            r@ == self.bytes(),
            r@.len() == 16,
    {
        let mut r: Vec<u8> = Vec::new();
        put_u32(&mut r, self.jacks);
        put_u32(&mut r, self.streams);
        put_u32(&mut r, self.chmaps);
        put_u32(&mut r, self.controls);
        proof {
            codec::lemma_le_bytes_len(self.jacks as nat, 4);
            codec::lemma_le_bytes_len(self.streams as nat, 4);
            codec::lemma_le_bytes_len(self.chmaps as nat, 4);
            codec::lemma_le_bytes_len(self.controls as nat, 4);
        }
        assert(r@ =~= self.bytes());
        r
    }
}

/// What every control request and every response begins with.
#[derive(Clone, Copy, PartialEq, Eq, Structural, Debug)]
pub struct VirtioSndHdr {
    pub code: u32,
}

impl VirtioSndHdr {
    pub open spec fn bytes(self) -> Seq<u8> {
        codec::enc_u32(self.code)
    }

    /// What a message of these bytes begins with, unless it is too short.
    pub open spec fn of(b: Seq<u8>) -> Option<Self> {
        if b.len() < 4 {
            None
        } else {
            Some(VirtioSndHdr { code: u32_of(b, 0) })
        }
    }

    pub fn parse(b: &[u8]) -> (r: Option<Self>)
        ensures
            r == Self::of(b@),
    {
        if b.len() < 4 {
            None
        } else {
            Some(VirtioSndHdr { code: u32_at(b, 0) })
        }
    }
}

/// Asks for `count` items from `start_id` on, each `size` bytes wide by the guest's account.
#[derive(Clone, Copy, PartialEq, Eq, Structural, Debug)]
pub struct VirtioSndQueryInfo {
    pub code: u32,
    pub start_id: u32,
    pub count: u32,
    pub size: u32,
}

impl VirtioSndQueryInfo {
    /// The request in these bytes; all zeros where they are too few.
    pub open spec fn of(b: Seq<u8>) -> Self {
        if b.len() < 16 {
            VirtioSndQueryInfo { code: 0, start_id: 0, count: 0, size: 0 }
        } else {
            VirtioSndQueryInfo {
                code: u32_of(b, 0),
                start_id: u32_of(b, 4),
                count: u32_of(b, 8),
                size: u32_of(b, 12),
            }
        }
    }

    pub fn parse(b: &[u8]) -> (r: Self)
        ensures
            r == Self::of(b@),
    {
        if b.len() < 16 {
            VirtioSndQueryInfo { code: 0, start_id: 0, count: 0, size: 0 }
        } else {
            VirtioSndQueryInfo {
                code: u32_at(b, 0),
                start_id: u32_at(b, 4),
                count: u32_at(b, 8),
                size: u32_at(b, 12),
            }
        }
    }

    /// Whether the item is among those asked for. A range past the last number ends there.
    pub open spec fn asks_for(self, id: u32) -> bool {
        self.start_id <= id && id < self.start_id + self.count && id < u32::MAX
    }

    pub fn wants(&self, id: u32) -> (r: bool)
        ensures
            r == self.asks_for(id),
    {
        self.start_id <= id && id < self.start_id.saturating_add(self.count)
    }
}

/// Moves a stream: prepare, start, stop or release.
#[derive(Clone, Copy, PartialEq, Eq, Structural, Debug)]
pub struct VirtioSndPcmHdr {
    pub code: u32,
    pub stream_id: u32,
}

impl VirtioSndPcmHdr {
    /// The request in these bytes; all zeros where they are too few.
    pub open spec fn of(b: Seq<u8>) -> Self {
        if b.len() < 8 {
            VirtioSndPcmHdr { code: 0, stream_id: 0 }
        } else {
            VirtioSndPcmHdr { code: u32_of(b, 0), stream_id: u32_of(b, 4) }
        }
    }

    pub fn parse(b: &[u8]) -> (r: Self)
        ensures
            r == Self::of(b@),
    {
        if b.len() < 8 {
            VirtioSndPcmHdr { code: 0, stream_id: 0 }
        } else {
            VirtioSndPcmHdr { code: u32_at(b, 0), stream_id: u32_at(b, 4) }
        }
    }
}

/// Sets a stream's parameters.
#[derive(Clone, Copy, PartialEq, Eq, Structural, Debug)]
pub struct VirtioSndPcmSetParams {
    pub code: u32,
    pub stream_id: u32,
    pub buffer_bytes: u32,
    pub period_bytes: u32,
    pub features: u32,
    pub channels: u8,
    pub format: u8,
    pub rate: u8,
    pub padding: u8,
}

impl VirtioSndPcmSetParams {
    /// The request in these bytes; all zeros where they are too few.
    pub open spec fn of(b: Seq<u8>) -> Self {
        if b.len() < 24 {
            VirtioSndPcmSetParams {
                code: 0,
                stream_id: 0,
                buffer_bytes: 0,
                period_bytes: 0,
                features: 0,
                channels: 0,
                format: 0,
                rate: 0,
                padding: 0,
            }
        } else {
            VirtioSndPcmSetParams {
                code: u32_of(b, 0),
                stream_id: u32_of(b, 4),
                buffer_bytes: u32_of(b, 8),
                period_bytes: u32_of(b, 12),
                features: u32_of(b, 16),
                channels: b[20],
                format: b[21],
                rate: b[22],
                padding: b[23],
            }
        }
    }

    pub fn parse(b: &[u8]) -> (r: Self)
        ensures
            r == Self::of(b@),
    {
        if b.len() < 24 {
            VirtioSndPcmSetParams {
                code: 0,
                stream_id: 0,
                buffer_bytes: 0,
                period_bytes: 0,
                features: 0,
                channels: 0,
                format: 0,
                rate: 0,
                padding: 0,
            }
        } else {
            VirtioSndPcmSetParams {
                code: u32_at(b, 0),
                stream_id: u32_at(b, 4),
                buffer_bytes: u32_at(b, 8),
                period_bytes: u32_at(b, 12),
                features: u32_at(b, 16),
                channels: b[20],
                format: b[21],
                rate: b[22],
                padding: b[23],
            }
        }
    }
}

/// Describes a stream.
#[derive(Clone, Copy, Debug)]
pub struct VirtioSndPcmInfo {
    pub hda_fn_nid: u32,
    pub features: u32,
    pub formats: u64,
    pub rates: u64,
    pub direction: u8,
    pub channels_min: u8,
    pub channels_max: u8,
    pub padding: [u8; 5],
}

impl VirtioSndPcmInfo {
    pub open spec fn bytes(self) -> Seq<u8> {
        codec::enc_u32(self.hda_fn_nid) + codec::enc_u32(self.features) + codec::enc_u64(
            self.formats,
        ) + codec::enc_u64(self.rates) + codec::enc_u8(self.direction) + codec::enc_u8(
            self.channels_min,
        ) + codec::enc_u8(self.channels_max) + self.padding@
    }

    /// Appends the description.
    pub fn put(&self, r: &mut Vec<u8>)
        ensures
            final(r)@ == old(r)@ + self.bytes(),
    {
        put_u32(r, self.hda_fn_nid);
        put_u32(r, self.features);
        put_u64(r, self.formats);
        put_u64(r, self.rates);
        put_u8(r, self.direction);
        put_u8(r, self.channels_min);
        put_u8(r, self.channels_max);
        put_bytes(r, self.padding.as_slice());
        assert(r@ =~= old(r)@ + self.bytes());
    }
}

/// Describes where a stream's channels belong.
#[derive(Clone, Copy, Debug)]
pub struct VirtioSndChmapInfo {
    pub hda_fn_nid: u32,
    pub direction: u8,
    pub channels: u8,
    pub positions: [u8; 18],
}

impl VirtioSndChmapInfo {
    pub open spec fn bytes(self) -> Seq<u8> {
        codec::enc_u32(self.hda_fn_nid) + codec::enc_u8(self.direction) + codec::enc_u8(
            self.channels,
        ) + self.positions@
    }

    /// Appends the description.
    pub fn put(&self, r: &mut Vec<u8>)
        ensures
            final(r)@ == old(r)@ + self.bytes(),
    {
        put_u32(r, self.hda_fn_nid);
        put_u8(r, self.direction);
        put_u8(r, self.channels);
        put_bytes(r, self.positions.as_slice());
        assert(r@ =~= old(r)@ + self.bytes());
    }
}

/// What precedes the samples of a buffer.
#[derive(Clone, Copy, PartialEq, Eq, Structural, Debug)]
pub struct VirtioSndPcmXfer {
    pub stream_id: u32,
}

impl VirtioSndPcmXfer {
    /// The samples of a buffer: what follows the header. A buffer too short for the header has
    /// none.
    pub open spec fn payload(b: Seq<u8>) -> Seq<u8> {
        if b.len() < 4 {
            Seq::empty()
        } else {
            b.skip(4)
        }
    }
}

/// How a buffer went.
#[derive(Clone, Copy, PartialEq, Eq, Structural, Debug)]
pub struct VirtioSndPcmStatus {
    pub status: u32,
    pub latency_bytes: u32,
}

/// How many bytes a status takes.
pub const PCM_STATUS_SIZE: usize = 8;

impl VirtioSndPcmStatus {
    pub open spec fn bytes(self) -> Seq<u8> {
        codec::enc_u32(self.status) + codec::enc_u32(self.latency_bytes)
    }

    /// Appends the status.
    pub fn put(&self, r: &mut Vec<u8>)
        ensures
            final(r)@ == old(r)@ + self.bytes(),
            self.bytes().len() == PCM_STATUS_SIZE,
    {
        put_u32(r, self.status);
        put_u32(r, self.latency_bytes);
        proof {
            codec::lemma_le_bytes_len(self.status as nat, 4);
            codec::lemma_le_bytes_len(self.latency_bytes as nat, 4);
        }
        assert(r@ =~= old(r)@ + self.bytes());
    }
}

/// A stream of signed 16-bit samples at 48 kHz, on so many channels and no other number.
pub open spec fn pcm_bytes(direction: u8, channels: u8) -> Seq<u8> {
    codec::enc_u32(0) + codec::enc_u32(0) + codec::enc_u64(32) + codec::enc_u64(128)
        + codec::enc_u8(direction) + codec::enc_u8(channels) + codec::enc_u8(channels) + seq![
        0u8,
        0,
        0,
        0,
        0,
    ]
}

fn pcm_info(direction: u8, channels: u8) -> (r: VirtioSndPcmInfo)
    ensures
        r.bytes() == pcm_bytes(direction, channels),
{
    let formats: u64 = 1u64 << VIRTIO_SND_PCM_FMT_S16;
    let rates: u64 = 1u64 << VIRTIO_SND_PCM_RATE_48000;
    proof {
        assert(1u64 << 5u8 == 32) by (bit_vector);
        assert(1u64 << 7u8 == 128) by (bit_vector);
    }
    let r = VirtioSndPcmInfo {
        hda_fn_nid: 0,
        features: 0,
        formats,
        rates,
        direction,
        channels_min: channels,
        channels_max: channels,
        padding: [0, 0, 0, 0, 0],
    };
    assert(r.padding@ =~= seq![0u8, 0, 0, 0, 0]);
    r
}

/// The stereo playback stream.
pub fn output_pcm_info() -> (r: VirtioSndPcmInfo)
    ensures
        r.bytes() == pcm_bytes(VIRTIO_SND_D_OUTPUT, 2),
{
    pcm_info(VIRTIO_SND_D_OUTPUT, 2)
}

/// The mono microphone stream.
pub fn capture_pcm_info() -> (r: VirtioSndPcmInfo)
    ensures
        r.bytes() == pcm_bytes(VIRTIO_SND_D_INPUT, 1),
{
    pcm_info(VIRTIO_SND_D_INPUT, 1)
}

/// A channel map: as many channels as positions, and zeros behind those.
pub open spec fn chmap_bytes(direction: u8, at: Seq<u8>) -> Seq<u8> {
    codec::enc_u32(0) + codec::enc_u8(direction) + codec::enc_u8(at.len() as u8) + at + Seq::new(
        (VIRTIO_SND_CHMAP_MAX_SIZE - at.len()) as nat,
        |i: int| 0u8,
    )
}

/// Playback's channels: front left and front right.
pub fn output_chmap_info() -> (r: VirtioSndChmapInfo)
    ensures
        r.bytes() == chmap_bytes(
            VIRTIO_SND_D_OUTPUT,
            seq![VIRTIO_SND_CHMAP_FL, VIRTIO_SND_CHMAP_FR],
        ),
{
    let positions: [u8; 18] = [
        VIRTIO_SND_CHMAP_FL,
        VIRTIO_SND_CHMAP_FR,
        0,
        0,
        0,
        0,
        0,
        0,
        0,
        0,
        0,
        0,
        0,
        0,
        0,
        0,
        0,
        0,
    ];
    let r = VirtioSndChmapInfo {
        hda_fn_nid: 0,
        direction: VIRTIO_SND_D_OUTPUT,
        channels: 2,
        positions,
    };
    assert(r.bytes() =~= chmap_bytes(
        VIRTIO_SND_D_OUTPUT,
        seq![VIRTIO_SND_CHMAP_FL, VIRTIO_SND_CHMAP_FR],
    ));
    r
}

/// The microphone's one channel.
pub fn capture_chmap_info() -> (r: VirtioSndChmapInfo)
    ensures
        r.bytes() == chmap_bytes(VIRTIO_SND_D_INPUT, seq![VIRTIO_SND_CHMAP_MONO]),
{
    let positions: [u8; 18] = [
        VIRTIO_SND_CHMAP_MONO,
        0,
        0,
        0,
        0,
        0,
        0,
        0,
        0,
        0,
        0,
        0,
        0,
        0,
        0,
        0,
        0,
        0,
    ];
    let r = VirtioSndChmapInfo {
        hda_fn_nid: 0,
        direction: VIRTIO_SND_D_INPUT,
        channels: 1,
        positions,
    };
    assert(r.bytes() =~= chmap_bytes(VIRTIO_SND_D_INPUT, seq![VIRTIO_SND_CHMAP_MONO]));
    r
}

} // verus!
