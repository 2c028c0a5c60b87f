//! The balloon device: its features, its config space and the host's target.
use crate::balloon::inflate;
use crate::balloon::inflate::{HostPage, Inflated, InflatedView};
use crate::balloon::reclaim;
use crate::codec;
use crate::codec::put_u32;
use crate::config;
use vstd::prelude::*;

verus! {

pub const VIRTIO_ID_BALLOON: u32 = 5;

/// The queues: inflate, deflate, statistics, page hinting and free page reporting.
pub const NUM_QUEUES: usize = 5;

pub const QUEUE_SIZE: u16 = 256;

pub const IFQ_INDEX: usize = 0;

pub const DFQ_INDEX: usize = 1;

pub const STQ_INDEX: usize = 2;

pub const PHQ_INDEX: usize = 3;

pub const FRQ_INDEX: usize = 4;

/// The feature bits that every balloon has: the virtio version, statistics and page hinting.
pub const BASE_FEATURES: u64 = 0x1_0000_0000 | 2 | 8;

/// The guest may deflate the balloon when it runs out of memory.
pub const FEATURE_DEFLATE_ON_OOM: u64 = 4;

/// The guest reports free pages.
pub const FEATURE_REPORTING: u64 = 32;

#[derive(Clone, Copy, PartialEq, Eq, Structural, Debug)]
pub enum BalloonError {
    /// An event descriptor could not be made: the system's error number.
    EventFd(i32),
}

#[derive(Clone, Copy, PartialEq, Eq, Structural, Debug)]
pub enum ActivateError {
    BadActivate,
}

/// The config space.
#[derive(Clone, Copy, PartialEq, Eq, Structural, Debug)]
pub struct VirtioBalloonConfig {
    /// How many pages the host wants the guest to give up.
    pub num_pages: u32,
    /// How many pages are in the balloon, by the guest's own account.
    pub actual: u32,
    pub free_page_report_cmd_id: u32,
    pub poison_val: u32,
}

/// What the host's policy gets to see.
#[derive(Clone, Copy, PartialEq, Eq, Structural, Debug)]
pub struct BalloonStats {
    /// How many pages are in the balloon, by the guest's own account.
    pub actual_pages: u32,
    /// How many bytes went back to the host so far.
    pub reclaimed_bytes: u64,
}

impl Default for BalloonStats {
    fn default() -> (r: Self)
        ensures
            r == (BalloonStats { actual_pages: 0, reclaimed_bytes: 0 }),
    {
        BalloonStats { actual_pages: 0, reclaimed_bytes: 0 }
    }
}

impl Default for VirtioBalloonConfig {
    fn default() -> (r: Self)
        ensures
            r == (VirtioBalloonConfig {
                num_pages: 0,
                actual: 0,
                free_page_report_cmd_id: 0,
                poison_val: 0,
            }),
    {
        VirtioBalloonConfig { num_pages: 0, actual: 0, free_page_report_cmd_id: 0, poison_val: 0 }
    }
}

impl VirtioBalloonConfig {
    /// The config space as the guest reads it.
    pub open spec fn bytes(self) -> Seq<u8> {
        codec::enc_u32(self.num_pages) + codec::enc_u32(self.actual) + codec::enc_u32(
            self.free_page_report_cmd_id,
        ) + codec::enc_u32(self.poison_val)
    }

    fn to_bytes(&self) -> (r: Vec<u8>)
        ensures
            r@ == self.bytes(),
            r@.len() == 16,
    {
        let mut r: Vec<u8> = Vec::new();
        put_u32(&mut r, self.num_pages);
        put_u32(&mut r, self.actual);
        put_u32(&mut r, self.free_page_report_cmd_id);
        put_u32(&mut r, self.poison_val);
        proof {
            codec::lemma_le_bytes_len(self.num_pages as nat, 4);
            codec::lemma_le_bytes_len(self.actual as nat, 4);
            codec::lemma_le_bytes_len(self.free_page_report_cmd_id as nat, 4);
            codec::lemma_le_bytes_len(self.poison_val as nat, 4);
        }
        assert(r@ =~= self.bytes());
        r
    }

    fn from_bytes(b: &[u8]) -> (r: Self)
        requires
            b@.len() == 16,
        ensures
            r.bytes() == b@,
    {
        let num_pages: u32 = field(b, 0);
        let actual: u32 = field(b, 4);
        let free_page_report_cmd_id: u32 = field(b, 8);
        let poison_val: u32 = field(b, 12);
        let r = VirtioBalloonConfig { num_pages, actual, free_page_report_cmd_id, poison_val };
        assert(r.bytes() =~= b@);
        r
    }
}

fn field(b: &[u8], at: usize) -> (r: u32)
    requires
        at + 4 <= b@.len(),
    ensures
        codec::enc_u32(r) == b@.subrange(at as int, at + 4),
{
    let ghost four = b@.subrange(at as int, at + 4);
    let r: u32 = b[at] as u32 + 256 * (b[at + 1] as u32) + 65536 * (b[at + 2] as u32) + 16777216 * (
    b[at + 3] as u32);
    proof {
        reveal_with_fuel(codec::le_bytes, 5);
        assert(codec::enc_u32(r) =~= four);
    }
    r
}

/// A config space after a write: what lies inside it whole is taken, anything else is ignored.
pub open spec fn written(before: Seq<u8>, offset: u64, data: Seq<u8>) -> Seq<u8> {
    if offset + data.len() > u64::MAX || offset >= before.len() || offset + data.len()
        > before.len() {
        before
    } else {
        before.take(offset as int) + data + before.skip(offset + data.len())
    }
}

pub struct Balloon {
    avail_features: u64,
    acked_features: u64,
    activated: bool,
    config: VirtioBalloonConfig,
    inflated: Inflated,
    pending_target: Option<u32>,
    /// What the guest last said of its balloon, for the host's policy.
    actual: u32,
    reclaimed_bytes: u64,
}

pub struct BalloonView {
    pub avail_features: u64,
    pub acked_features: u64,
    pub activated: bool,
    pub config: VirtioBalloonConfig,
    pub inflated: InflatedView,
    pub pending_target: Option<u32>,
    pub actual: u32,
    pub reclaimed_bytes: u64,
}

impl View for Balloon {
    type V = BalloonView;

    closed spec fn view(&self) -> BalloonView {
        BalloonView {
            avail_features: self.avail_features,
            acked_features: self.acked_features,
            activated: self.activated,
            config: self.config,
            inflated: self.inflated@,
            pending_target: self.pending_target,
            actual: self.actual,
            reclaimed_bytes: self.reclaimed_bytes,
        }
    }
}

/// The features on offer. Reporting and deflating on out-of-memory are offered only where they are
/// asked for.
pub open spec fn features(free_page_reporting: bool, deflate_on_oom: bool) -> u64 {
    let r = if free_page_reporting {
        FEATURE_REPORTING
    } else {
        0
    };
    let d = if deflate_on_oom {
        FEATURE_DEFLATE_ON_OOM
    } else {
        0
    };
    BASE_FEATURES | r | d
}

impl Balloon {
    pub closed spec fn inv(self) -> bool {
        self.inflated.inv()
    }

    pub fn new(free_page_reporting: bool, deflate_on_oom: bool, host_page: usize) -> (r: Self)
        requires
            reclaim::valid_host_page(host_page),
        ensures
            r.inv(),
            r@ == (BalloonView {
                avail_features: features(free_page_reporting, deflate_on_oom),
                acked_features: 0,
                activated: false,
                config: VirtioBalloonConfig {
                    num_pages: 0,
                    actual: 0,
                    free_page_report_cmd_id: 0,
                    poison_val: 0,
                },
                inflated: InflatedView { host_page, mask: Map::empty(), ballooned: Set::empty() },
                pending_target: None,
                actual: 0,
                reclaimed_bytes: 0,
            }),
    {
        let reporting: u64 = if free_page_reporting {
            FEATURE_REPORTING
        } else {
            0
        };
        let deflate: u64 = if deflate_on_oom {
            FEATURE_DEFLATE_ON_OOM
        } else {
            0
        };
        Balloon {
            avail_features: BASE_FEATURES | reporting | deflate,
            acked_features: 0,
            activated: false,
            config: VirtioBalloonConfig::default(),
            inflated: Inflated::new(host_page),
            pending_target: None,
            actual: 0,
            reclaimed_bytes: 0,
        }
    }

    pub fn id(&self) -> (r: &'static str)
        ensures
            r@ == "virtio_balloon"@,
    {
        "virtio_balloon"
    }

    /// The size of the host's pages.
    pub fn host_page(&self) -> (r: usize)
        requires
            self.inv(),
        ensures
            r == self@.inflated.host_page,
            reclaim::valid_host_page(r),
    {
        self.inflated.host_page()
    }

    pub fn avail_features(&self) -> (r: u64)
        ensures
            r == self@.avail_features,
    {
        self.avail_features
    }

    pub fn acked_features(&self) -> (r: u64)
        ensures
            r == self@.acked_features,
    {
        self.acked_features
    }

    pub fn set_acked_features(&mut self, acked_features: u64)
        requires
            old(self).inv(),
        ensures
            final(self).inv(),
            final(self)@ == (BalloonView { acked_features, ..old(self)@ }),
    {
        self.acked_features = acked_features;
    }

    pub fn is_activated(&self) -> (r: bool)
        ensures
            r == self@.activated,
    {
        self.activated
    }

    /// Asks for this many pages. A target that was not applied yet is replaced.
    pub fn set_target_pages(&mut self, target: u32)
        requires
            old(self).inv(),
        ensures
            final(self).inv(),
            final(self)@ == (BalloonView { pending_target: Some(target), ..old(self)@ }),
    {
        self.pending_target = Some(target);
    }

    /// How many pages are in the balloon, by the guest's own account.
    pub fn get_actual(&self) -> (r: u32)
        ensures
            r == self@.actual,
    {
        self.actual
    }

    pub fn get_stats(&self) -> (r: BalloonStats)
        ensures
            r == (BalloonStats {
                actual_pages: self@.actual,
                reclaimed_bytes: self@.reclaimed_bytes,
            }),
    {
        BalloonStats { actual_pages: self.actual, reclaimed_bytes: self.reclaimed_bytes }
    }

    /// Applies a pending target. Returns whether there was one: the guest is then to be told that
    /// the configuration changed.
    pub fn apply_target(&mut self) -> (r: bool)
        requires
            old(self).inv(),
        ensures
            final(self).inv(),
            r == old(self)@.pending_target is Some,
            final(self)@ == match old(self)@.pending_target {
                Some(pages) => BalloonView {
                    pending_target: None,
                    config: VirtioBalloonConfig { num_pages: pages, ..old(self)@.config },
                    ..old(self)@
                },
                None => old(self)@,
            },
    {
        match self.pending_target {
            Some(pages) => {
                self.pending_target = None;
                self.config.num_pages = pages;
                true
            },
            None => false,
        }
    }

    /// Reads the config space.
    pub fn read_config(&self, offset: u64, data: &mut [u8])
        ensures
            final(data)@ == config::config_after(self@.config.bytes(), offset, old(data)@),
    {
        let bytes: Vec<u8> = self.config.to_bytes();
        config::read_config(bytes.as_slice(), offset, data);
    }

    /// The guest writes the config space, to say how much is in its balloon. A write that does not
    /// lie inside it whole is ignored.
    pub fn write_config(&mut self, offset: u64, data: &[u8])
        requires
            old(self).inv(),
        ensures
            final(self).inv(),
            final(self)@.config.bytes() == written(old(self)@.config.bytes(), offset, data@),
            final(self)@ == (BalloonView {
                config: final(self)@.config,
                actual: if offset + data@.len() > 16 || offset >= 16 {
                    old(self)@.actual
                } else {
                    final(self)@.config.actual
                },
                ..old(self)@
            }),
    {
        let mut bytes: Vec<u8> = self.config.to_bytes();
        let n: usize = data.len();
        let end: u64 = match offset.checked_add(n as u64) {
            Some(end) => end,
            None => {
                return;
            },
        };
        if offset >= 16 || end > 16 {
            return;
        }
        let start: usize = offset as usize;
        let ghost before = bytes@;
        let mut i: usize = 0;
        while i < n
            invariant
                i <= n == data@.len(),
                start + n <= 16 == bytes@.len() == before.len(),
                forall|k: int|
                    0 <= k < 16 ==> #[trigger] bytes@[k] == (if start <= k < start + i {
                        data@[k - start]
                    } else {
                        before[k]
                    }),
            decreases n - i,
        {
            bytes.set(start + i, data[i]);
            i = i + 1;
        }
        assert(bytes@ =~= written(before, offset, data@));
        self.config = VirtioBalloonConfig::from_bytes(bytes.as_slice());
        self.actual = self.config.actual;
    }

    /// The guest put a page into the balloon. Gives the host page to give back, when this was the
    /// last of it.
    pub fn inflate(&mut self, host_addr: usize, guest: u64) -> (r: Option<HostPage>)
        requires
            old(self).inv(),
            guest >= host_addr as int % old(self)@.inflated.host_page as int,
        ensures
            final(self).inv(),
            ({
                let v = old(self)@.inflated;
                let (after, release) = v.inflate(host_addr as int);
                let b = reclaim::page_base(v.host_page, host_addr as int);
                &&& final(self)@ == (BalloonView { inflated: after, ..old(self)@ })
                &&& r == if release {
                    Some((b as usize, (guest - (host_addr - b)) as u64))
                } else {
                    None
                }
            }),
    {
        self.inflated.inflate(host_addr, guest)
    }

    /// Whether the host page at `base` could be given back. What could is counted.
    pub fn released(&mut self, base: usize, len: usize, ok: bool)
        requires
            old(self).inv(),
        ensures
            final(self).inv(),
            final(self)@ == if ok {
                BalloonView {
                    reclaimed_bytes: old(self)@.reclaimed_bytes.wrapping_add(len as u64),
                    ..old(self)@
                }
            } else {
                BalloonView { inflated: old(self)@.inflated.not_released(base), ..old(self)@ }
            },
    {
        if ok {
            self.reclaimed_bytes = self.reclaimed_bytes.wrapping_add(len as u64);
        } else {
            self.inflated.not_released(base);
        }
    }

    /// Counts a run of a free page report that went back.
    pub fn report_released(&mut self, len: usize)
        requires
            old(self).inv(),
        ensures
            final(self).inv(),
            final(self)@ == (BalloonView {
                reclaimed_bytes: old(self)@.reclaimed_bytes.wrapping_add(len as u64),
                ..old(self)@
            }),
    {
        self.reclaimed_bytes = self.reclaimed_bytes.wrapping_add(len as u64);
    }

    /// The guest took a page out of the balloon. Gives the host page to take back, where it had
    /// gone back whole.
    pub fn deflate(&mut self, host_addr: usize, guest: u64) -> (r: Option<HostPage>)
        requires
            old(self).inv(),
            guest >= host_addr as int % old(self)@.inflated.host_page as int,
        ensures
            final(self).inv(),
            ({
                let v = old(self)@.inflated;
                let (after, take) = v.deflate(host_addr as int);
                let b = reclaim::page_base(v.host_page, host_addr as int);
                &&& final(self)@ == (BalloonView { inflated: after, ..old(self)@ })
                &&& r == if take {
                    Some((b as usize, (guest - (host_addr - b)) as u64))
                } else {
                    None
                }
            }),
    {
        self.inflated.deflate(host_addr, guest)
    }

    /// Activates the device with this many queues; `signalled` says whether its event loop could be
    /// told.
    pub fn activate(&mut self, queues: usize, signalled: bool) -> (r: Result<(), ActivateError>)
        requires
            old(self).inv(),
        ensures
            final(self).inv(),
            r is Ok == (queues == NUM_QUEUES && signalled),
            final(self)@ == (BalloonView {
                activated: old(self)@.activated || r is Ok,
                ..old(self)@
            }),
    {
        if queues != NUM_QUEUES || !signalled {
            return Err(ActivateError::BadActivate);
        }
        self.activated = true;
        Ok(())
    }

    /// Resets the device. The guest's balloon starts over empty, so what is known of it is
    /// forgotten, and so is a target that was not applied.
    pub fn reset(&mut self) -> (r: bool)
        requires
            old(self).inv(),
        ensures
            r,
            final(self).inv(),
            final(self)@ == (BalloonView {
                activated: false,
                pending_target: None,
                inflated: InflatedView {
                    host_page: old(self)@.inflated.host_page,
                    mask: Map::empty(),
                    ballooned: Set::empty(),
                },
                ..old(self)@
            }),
    {
        self.inflated.clear();
        self.pending_target = None;
        self.activated = false;
        true
    }
}

/// Statistics and page hinting are always on offer, free page reporting and deflating on
/// out-of-memory where they were asked for, and the virtio version of today; nothing else is.
pub proof fn law_features_on_offer(free_page_reporting: bool, deflate_on_oom: bool)
    ensures
        features(free_page_reporting, deflate_on_oom) == 0x1_0000_0000 + 2 + 8 + (
        if free_page_reporting {
            32int
        } else {
            0
        }) + (if deflate_on_oom {
            4int
        } else {
            0
        }),
{
    assert((0x1_0000_0000u64 | 2 | 8) | 0 | 0 == 0x1_0000_000au64) by (bit_vector);
    assert((0x1_0000_0000u64 | 2 | 8) | 32 | 0 == 0x1_0000_002au64) by (bit_vector);
    assert((0x1_0000_0000u64 | 2 | 8) | 0 | 4 == 0x1_0000_000eu64) by (bit_vector);
    assert((0x1_0000_0000u64 | 2 | 8) | 32 | 4 == 0x1_0000_002eu64) by (bit_vector);
}

/// Where the fields of the config space lie: the target first, then the guest's own account.
pub proof fn law_config_fields(c: VirtioBalloonConfig)
    ensures
        c.bytes().len() == 16,
        codec::le_value(c.bytes().subrange(0, 4)) == c.num_pages,
        codec::le_value(c.bytes().subrange(4, 8)) == c.actual,
        codec::le_value(c.bytes().subrange(8, 12)) == c.free_page_report_cmd_id,
        codec::le_value(c.bytes().subrange(12, 16)) == c.poison_val,
{
    codec::lemma_le_bounds();
    codec::lemma_le_bytes_len(c.num_pages as nat, 4);
    codec::lemma_le_bytes_len(c.actual as nat, 4);
    codec::lemma_le_bytes_len(c.free_page_report_cmd_id as nat, 4);
    codec::lemma_le_bytes_len(c.poison_val as nat, 4);
    codec::lemma_le_round_trip(c.num_pages as nat, 4);
    codec::lemma_le_round_trip(c.actual as nat, 4);
    codec::lemma_le_round_trip(c.free_page_report_cmd_id as nat, 4);
    codec::lemma_le_round_trip(c.poison_val as nat, 4);
    assert(c.bytes().subrange(0, 4) =~= codec::enc_u32(c.num_pages));
    assert(c.bytes().subrange(4, 8) =~= codec::enc_u32(c.actual));
    assert(c.bytes().subrange(8, 12) =~= codec::enc_u32(c.free_page_report_cmd_id));
    assert(c.bytes().subrange(12, 16) =~= codec::enc_u32(c.poison_val));
}

/// A write puts its bytes where it says and leaves the others; one that would reach past the end
/// is ignored.
pub proof fn law_config_is_written(before: Seq<u8>, offset: u64, data: Seq<u8>, i: int)
    requires
        before.len() == 16,
        0 <= i < 16,
    ensures
        written(before, offset, data).len() == 16,
        offset + data.len() > 16 ==> written(before, offset, data) == before,
        offset < 16 && offset + data.len() <= 16 && offset <= i < offset + data.len()
            ==> written(before, offset, data)[i] == data[i - offset],
        i < offset || i >= offset + data.len() ==> written(before, offset, data)[i] == before[i],
{
}

} // verus!
