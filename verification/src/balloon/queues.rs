//! The balloon's queues: what each buffer of the guest's names, looked up in its memory.
use crate::balloon::device::{Balloon, BalloonView};
use crate::balloon::inflate;
use crate::balloon::inflate::{frame_address, read_frames, HostPage};
use crate::balloon::reclaim;
use crate::balloon::reclaim::{Run, GUEST_PAGE};
use crate::balloon::runs;
use crate::balloon::runs::reclaim_report;
use crate::codec;
use crate::guest_memory;
use crate::guest_memory::{host_address, read_bytes};
use vm_memory::GuestMemoryMmap;
use vstd::prelude::*;

verus! {

/// A buffer of the guest's: its address and its length.
pub type Buffer = (u64, u32);

/// Why a page frame is passed over.
#[derive(Clone, Copy, PartialEq, Eq, Structural, Debug)]
pub enum FrameError {
    /// The guest has no memory there.
    NotInGuest,
    /// The host page that it lies in begins below the guest's addresses.
    BelowGuest,
}

/// The guest-physical address of a page frame.
pub open spec fn address_of(pfn: u32) -> u64 {
    (pfn * 4096) as u64
}

/// How many of the `n` frame numbers from `addr` can be read, before the first that cannot.
pub open spec fn readable_frames(regions: Seq<(u64, u64)>, addr: int, n: nat) -> nat
    decreases n,
{
    if n == 0 || !guest_memory::spans(regions, addr, 4) {
        0
    } else {
        1 + readable_frames(regions, addr + 4, (n - 1) as nat)
    }
}

/// Reads the frame numbers in a buffer, up to the first that cannot be read.
pub fn read_buffer(mem: &GuestMemoryMmap, buf: Buffer) -> (r: Vec<u32>)
    ensures
        exists|b: Seq<u8>| #[trigger]
            inflate::frames_of(b) == r@ && b.len() == 4 * readable_frames(
                guest_memory::guest_regions(*mem),
                buf.0 as int,
                (buf.1 / 4) as nat,
            ),
{
    let ghost regions = guest_memory::guest_regions(*mem);
    let n: u32 = buf.1 / 4;
    let mut bytes: Vec<u8> = Vec::new();
    let mut i: u32 = 0;
    let mut more: bool = true;
    while more && i < n
        invariant
            i <= n,
            n == buf.1 / 4,
            regions == guest_memory::guest_regions(*mem),
            bytes@.len() == 4 * i,
            if more {
                readable_frames(regions, buf.0 as int, n as nat) == i + readable_frames(
                    regions,
                    buf.0 + 4 * i,
                    (n - i) as nat,
                )
            } else {
                readable_frames(regions, buf.0 as int, n as nat) == i
            },
        decreases n - i + (if more {
            1int
        } else {
            0int
        }),
    {
        let four: Option<Vec<u8>> = match buf.0.checked_add(4 * (i as u64)) {
            Some(at) => read_bytes(mem, at, 4),
            None => None,
        };
        match four {
            Some(mut four) => {
                bytes.append(&mut four);
                i = i + 1;
            },
            None => {
                more = false;
            },
        }
    }
    let r: Vec<u32> = read_frames(bytes.as_slice());
    assert(inflate::frames_of(bytes@) == r@);
    r
}

/// A page frame that the guest names: where it lies in the guest, and in the host where the guest
/// has memory there.
#[derive(Clone, Copy, PartialEq, Eq, Structural, Debug)]
pub struct Frame {
    pub guest: u64,
    pub host: Option<usize>,
}

/// A frame of this number, wherever the host keeps it.
pub open spec fn names(regions: Seq<(u64, u64)>, pfn: u32, frame: Frame) -> bool {
    &&& frame.guest == address_of(pfn)
    &&& frame.host is Some == guest_memory::holds(regions, address_of(pfn) as int)
}

/// Looks a page frame up. Where the host keeps it is the mapping's affair.
pub fn look_up(mem: &GuestMemoryMmap, pfn: u32) -> (r: Frame)
    ensures
        names(guest_memory::guest_regions(*mem), pfn, r),
{
    let guest: u64 = frame_address(pfn);
    assert(guest == address_of(pfn));
    Frame { guest, host: host_address(mem, guest) }
}

/// How many frame numbers the buffers hold, each up to the first that cannot be read.
pub open spec fn all_readable_frames(regions: Seq<(u64, u64)>, bufs: Seq<Buffer>) -> nat
    decreases bufs.len(),
{
    if bufs.len() == 0 {
        0
    } else {
        all_readable_frames(regions, bufs.drop_last()) + readable_frames(
            regions,
            bufs.last().0 as int,
            (bufs.last().1 / 4) as nat,
        )
    }
}

/// The frames are the ones with these numbers, in order.
pub open spec fn all_named(regions: Seq<(u64, u64)>, pfns: Seq<u32>, frames: Seq<Frame>) -> bool {
    &&& frames.len() == pfns.len()
    &&& forall|i: int| 0 <= i < frames.len() ==> names(regions, pfns[i], #[trigger] frames[i])
}

/// The frames that a chain of buffers names, in order. Their numbers are what the guest wrote, and
/// where the host keeps them is the mapping's affair.
pub fn read_chain(mem: &GuestMemoryMmap, bufs: &Vec<Buffer>) -> (r: Vec<Frame>)
    ensures
        exists|pfns: Seq<u32>|
            pfns.len() == all_readable_frames(guest_memory::guest_regions(*mem), bufs@)
                && #[trigger] all_named(guest_memory::guest_regions(*mem), pfns, r@),
{
    let ghost regions = guest_memory::guest_regions(*mem);
    let ghost mut pfns: Seq<u32> = Seq::empty();
    let mut r: Vec<Frame> = Vec::new();
    let mut i: usize = 0;
    while i < bufs.len()
        invariant
            i <= bufs@.len(),
            regions == guest_memory::guest_regions(*mem),
            pfns.len() == all_readable_frames(regions, bufs@.take(i as int)),
            all_named(regions, pfns, r@),
        decreases bufs@.len() - i,
    {
        let numbers: Vec<u32> = read_buffer(mem, bufs[i]);
        proof {
            assert(bufs@.take(i + 1).drop_last() =~= bufs@.take(i as int));
            let b = choose|b: Seq<u8>| #[trigger]
                inflate::frames_of(b) == numbers@ && b.len() == 4 * readable_frames(
                    regions,
                    bufs@[i as int].0 as int,
                    (bufs@[i as int].1 / 4) as nat,
                );
            lemma_whole_frames(b);
        }
        let ghost before = pfns;
        let mut k: usize = 0;
        while k < numbers.len()
            invariant
                k <= numbers@.len(),
                regions == guest_memory::guest_regions(*mem),
                pfns == before + numbers@.take(k as int),
                all_named(regions, pfns, r@),
            decreases numbers@.len() - k,
        {
            let frame: Frame = look_up(mem, numbers[k]);
            r.push(frame);
            proof {
                pfns = pfns.push(numbers@[k as int]);
                assert(pfns =~= before + numbers@.take(k + 1));
            }
            k = k + 1;
        }
        assert(numbers@.take(numbers@.len() as int) =~= numbers@);
        i = i + 1;
    }
    assert(bufs@.take(bufs@.len() as int) =~= bufs@);
    r
}

/// Every four bytes are a frame number.
proof fn lemma_whole_frames(b: Seq<u8>)
    ensures
        inflate::frames_of(b).len() == b.len() / 4,
    decreases b.len(),
{
    if let Some((_, rest)) = codec::dec_u32(b) {
        if rest.len() < b.len() {
            lemma_whole_frames(rest);
        }
    }
}

impl BalloonView {
    /// The frame at guest address `guest` and host address `host` put into the balloon.
    pub open spec fn frame_in(self, host: int, guest: u64) -> (Self, Result<
        Option<HostPage>,
        FrameError,
    >) {
        let page = self.inflated.host_page;
        if guest < host % (page as int) {
            (self, Err(FrameError::BelowGuest))
        } else {
            let (after, release) = self.inflated.inflate(host);
            let b = reclaim::page_base(page, host);
            (
                BalloonView { inflated: after, ..self },
                Ok(
                    if release {
                        Some((b as usize, (guest - (host - b)) as u64))
                    } else {
                        None
                    },
                ),
            )
        }
    }

    /// The frame at guest address `guest` and host address `host` taken out of the balloon.
    pub open spec fn frame_out(self, host: int, guest: u64) -> (Self, Result<
        Option<HostPage>,
        FrameError,
    >) {
        let page = self.inflated.host_page;
        if guest < host % (page as int) {
            (self, Err(FrameError::BelowGuest))
        } else {
            let (after, take) = self.inflated.deflate(host);
            let b = reclaim::page_base(page, host);
            (
                BalloonView { inflated: after, ..self },
                Ok(
                    if take {
                        Some((b as usize, (guest - (host - b)) as u64))
                    } else {
                        None
                    },
                ),
            )
        }
    }
}

/// The stretches that a report calls free: its buffers in guest memory, each at its host address.
/// One that reaches over the top of an address space is passed over.
pub open spec fn free_runs(
    host_page: usize,
    regions: Seq<(u64, u64)>,
    bufs: Seq<Buffer>,
    hosts: Seq<usize>,
) -> Seq<Run>
    decreases bufs.len(),
{
    if bufs.len() == 0 {
        Seq::empty()
    } else {
        let before = free_runs(host_page, regions, bufs.drop_last(), hosts);
        let last = bufs.last();
        let run = (hosts[bufs.len() - 1], last.0, last.1 as usize);
        if guest_memory::holds(regions, last.0 as int) && reclaim::fits(host_page, run) {
            before.push(run)
        } else {
            before
        }
    }
}

/// Whether a stretch fits both address spaces.
fn run_fits(host_page: usize, run: Run) -> (r: bool)
    requires
        reclaim::valid_host_page(host_page),
    ensures
        r == reclaim::fits(host_page, run),
{
    if run.2 < GUEST_PAGE {
        return true;
    }
    let addr: u128 = run.0 as u128;
    let len: u128 = run.2 as u128;
    if addr + len > usize::MAX as u128 {
        return false;
    }
    let start: u128 = (addr + 4095) / 4096 * 4096;
    let end: u128 = (addr + len) / 4096 * 4096;
    if start >= end {
        return true;
    }
    proof {
        reclaim::lemma_page(host_page, start as int);
    }
    let base: u128 = start - start % (host_page as u128);
    run.1 as u128 + (end - 4096 - addr) <= u64::MAX as u128 && run.1 as u128 + base >= addr
}

impl Balloon {
    /// One report of free pages: the runs to release before its buffers go back. Buffers outside
    /// guest memory are passed over, and so are those that reach over the top of an address space.
    pub fn process_frq(&self, mem: &GuestMemoryMmap, bufs: &Vec<Buffer>) -> (out: Vec<Run>)
        requires
            self.inv(),
        ensures
            exists|hosts: Seq<usize>|
                hosts.len() == bufs@.len() && runs::reclaims(
                    self@.inflated.host_page,
                    #[trigger] free_runs(
                        self@.inflated.host_page,
                        guest_memory::guest_regions(*mem),
                        bufs@,
                        hosts,
                    ),
                    out@,
                ),
            runs::whole_pages(self@.inflated.host_page, out@),
            runs::apart(out@),
    {
        let page: usize = self.host_page();
        let ghost regions = guest_memory::guest_regions(*mem);
        let ghost mut hosts: Seq<usize> = Seq::empty();
        let mut free: Vec<Run> = Vec::new();
        let mut i: usize = 0;
        while i < bufs.len()
            invariant
                i <= bufs@.len(),
                reclaim::valid_host_page(page),
                regions == guest_memory::guest_regions(*mem),
                hosts.len() == i,
                free@ == free_runs(page, regions, bufs@.take(i as int), hosts),
                forall|j: int| 0 <= j < free@.len() ==> reclaim::fits(page, #[trigger] free@[j]),
            decreases bufs@.len() - i,
        {
            let buf: Buffer = bufs[i];
            let ghost known = hosts;
            let host: Option<usize> = host_address(mem, buf.0);
            proof {
                hosts = hosts.push(match host {
                    Some(h) => h,
                    None => 0,
                });
                lemma_known_hosts(page, regions, bufs@.take(i as int), known, hosts);
                assert(bufs@.take(i + 1).drop_last() =~= bufs@.take(i as int));
            }
            if let Some(h) = host {
                let run: Run = (h, buf.0, buf.1 as usize);
                if run_fits(page, run) {
                    free.push(run);
                }
            }
            i = i + 1;
        }
        assert(bufs@.take(bufs@.len() as int) =~= bufs@);
        assert(free@ == free_runs(page, regions, bufs@, hosts));
        reclaim_report(page, &free)
    }

    /// One frame of the inflate queue. Gives the host page to release, when this was the last of
    /// it.
    pub fn process_ifq(&mut self, frame: Frame) -> (r: Result<Option<HostPage>, FrameError>)
        requires
            old(self).inv(),
        ensures
            final(self).inv(),
            match frame.host {
                Some(host) => (final(self)@, r) == old(self)@.frame_in(host as int, frame.guest),
                None => (final(self)@, r) == (
                    old(self)@,
                    Err::<Option<HostPage>, FrameError>(FrameError::NotInGuest),
                ),
            },
    {
        match frame.host {
            Some(host) => {
                let page: usize = self.host_page();
                if frame.guest < (host % page) as u64 {
                    return Err(FrameError::BelowGuest);
                }
                Ok(self.inflate(host, frame.guest))
            },
            None => Err(FrameError::NotInGuest),
        }
    }

    /// One frame of the deflate queue. Gives the host page to take back, where it had been
    /// released.
    pub fn process_dfq(&mut self, frame: Frame) -> (r: Result<Option<HostPage>, FrameError>)
        requires
            old(self).inv(),
        ensures
            final(self).inv(),
            match frame.host {
                Some(host) => (final(self)@, r) == old(self)@.frame_out(host as int, frame.guest),
                None => (final(self)@, r) == (
                    old(self)@,
                    Err::<Option<HostPage>, FrameError>(FrameError::NotInGuest),
                ),
            },
    {
        match frame.host {
            Some(host) => {
                let page: usize = self.host_page();
                if frame.guest < (host % page) as u64 {
                    return Err(FrameError::BelowGuest);
                }
                Ok(self.deflate(host, frame.guest))
            },
            None => Err(FrameError::NotInGuest),
        }
    }
}

impl BalloonView {
    /// After a frame was put in, and the host page that went with it, if one did, was given back.
    pub open spec fn frame_released(self, host: int, guest: u64) -> Self {
        let (after, r) = self.frame_in(host, guest);
        match r {
            Ok(Some(_)) => BalloonView {
                reclaimed_bytes: after.reclaimed_bytes.wrapping_add(
                    self.inflated.host_page as u64,
                ),
                ..after
            },
            _ => after,
        }
    }

    /// After these frames, one behind the other.
    pub open spec fn frames_released(self, frames: Seq<(int, u64)>) -> Self
        decreases frames.len(),
    {
        if frames.len() == 0 {
            self
        } else {
            self.frames_released(frames.drop_last()).frame_released(
                frames.last().0,
                frames.last().1,
            )
        }
    }
}

/// The host addresses of frames.
pub open spec fn hosts_of(frames: Seq<(int, u64)>) -> Seq<int> {
    frames.map_values(|f: (int, u64)| f.0)
}

/// Over all frames that the guest puts into the balloon since a reset, where the host takes what is
/// given back: a host page was given back, once, exactly if all its guest pages are among them, and
/// the bytes counted grow by a host page each time one is.
pub proof fn law_inflated_host_pages_are_released(
    v: BalloonView,
    frames: Seq<(int, u64)>,
    b: int,
)
    requires
        reclaim::valid_host_page(v.inflated.host_page),
        v.inflated == inflate::InflatedView::empty(v.inflated.host_page),
        forall|i: int|
            0 <= i < frames.len() ==> {
                &&& 0 <= (#[trigger] frames[i]).0 <= usize::MAX
                &&& frames[i].1 >= frames[i].0 % (v.inflated.host_page as int)
            },
        0 <= b <= usize::MAX,
        b % (v.inflated.host_page as int) == 0,
    ensures
        ({
            let page = v.inflated.host_page;
            let hosts = hosts_of(frames);
            let after = v.frames_released(frames);
            &&& v.inflated.releases(hosts, b) == if inflate::all_in(page, hosts, b) {
                1nat
            } else {
                0
            }
            &&& after.inflated.ballooned.contains(b as u64) == inflate::all_in(page, hosts, b)
            &&& after.reclaimed_bytes == (v.reclaimed_bytes + page * v.inflated.all_releases(hosts))
                % 0x1_0000_0000_0000_0000
        }),
{
    let hosts = hosts_of(frames);
    assert forall|i: int| 0 <= i < hosts.len() implies 0 <= #[trigger] hosts[i] <= usize::MAX by {
        assert(0 <= frames[i].0 <= usize::MAX);
    }
    inflate::law_whole_pages_go_back_once(v.inflated.host_page, hosts, b);
    lemma_frames_released(v, frames);
}

pub proof fn lemma_frames_released(v: BalloonView, frames: Seq<(int, u64)>)
    requires
        forall|i: int|
            0 <= i < frames.len() ==> (#[trigger] frames[i]).1 >= frames[i].0 % (
            v.inflated.host_page as int),
    ensures
        v.frames_released(frames).inflated == v.inflated.inflate_all(hosts_of(frames)),
        v.frames_released(frames).inflated.host_page == v.inflated.host_page,
        v.frames_released(frames).reclaimed_bytes == (v.reclaimed_bytes + v.inflated.host_page
            * v.inflated.all_releases(hosts_of(frames))) % 0x1_0000_0000_0000_0000,
    decreases frames.len(),
{
    let hosts = hosts_of(frames);
    if frames.len() > 0 {
        let short = frames.drop_last();
        let last = frames[frames.len() - 1];
        assert forall|i: int| 0 <= i < short.len() implies (#[trigger] short[i]).1 >= short[i].0 % (
        v.inflated.host_page as int) by {
            assert(short[i] == frames[i]);
        }
        lemma_frames_released(v, short);
        assert(hosts.drop_last() =~= hosts_of(short));
        assert(hosts.last() == last.0);
        let page = v.inflated.host_page as int;
        let n = v.inflated.all_releases(hosts_of(short)) as int;
        assert(page * (n + 1) == page * n + page) by (nonlinear_arith);
        vstd::arithmetic::div_mod::lemma_add_mod_noop(
            v.reclaimed_bytes + page * n,
            page,
            0x1_0000_0000_0000_0000,
        );
        let before = v.frames_released(short);
        assert(before.reclaimed_bytes.wrapping_add(page as u64) == (before.reclaimed_bytes + page)
            % 0x1_0000_0000_0000_0000);
        assert(page % 0x1_0000_0000_0000_0000 == page);
        if v.inflated.inflate_all(hosts_of(short)).inflate(last.0).1 {
            assert(v.inflated.all_releases(hosts) == n + 1);
        } else {
            assert(v.inflated.all_releases(hosts) == n);
        }
    } else {
        let page = v.inflated.host_page as int;
        assert(page * 0 == 0) by (nonlinear_arith);
    }
}

/// Host addresses found later do not change the stretches found before.
proof fn lemma_known_hosts(
    host_page: usize,
    regions: Seq<(u64, u64)>,
    bufs: Seq<Buffer>,
    known: Seq<usize>,
    more: Seq<usize>,
)
    requires
        bufs.len() <= known.len() <= more.len(),
        forall|i: int| 0 <= i < bufs.len() ==> #[trigger] more[i] == known[i],
    ensures
        free_runs(host_page, regions, bufs, more) == free_runs(host_page, regions, bufs, known),
    decreases bufs.len(),
{
    if bufs.len() > 0 {
        lemma_known_hosts(host_page, regions, bufs.drop_last(), known, more);
    }
}

} // verus!
