//! What becomes of one page when another comes or goes.
use crate::balloon::device::BalloonView;
use crate::balloon::drain::{Item, Need, PageDrainView, PagePhase, PageReplyView};
use crate::balloon::inflate;
use crate::balloon::inflate::InflatedView;
use crate::balloon::queues;
use crate::balloon::queues::Frame;
use crate::balloon::reclaim;
use crate::balloon::reclaim::Run;
use crate::codec;
use crate::guest_memory;
use vstd::prelude::*;

verus! {

proof fn lemma_pages_apart(host_page: usize, p: int, q: int)
    requires
        reclaim::valid_host_page(host_page),
        0 <= p <= usize::MAX,
        0 <= q <= usize::MAX,
        p / 4096 != q / 4096,
    ensures
        reclaim::page_base(host_page, p) != reclaim::page_base(host_page, q) || reclaim::page_sub(
            host_page,
            p,
        ) != reclaim::page_sub(host_page, q),
{
    reclaim::lemma_page(host_page, p);
    reclaim::lemma_page(host_page, q);
    if reclaim::page_base(host_page, p) == reclaim::page_base(host_page, q) {
        let b = reclaim::page_base(host_page, p);
        assert(p / 4096 == b / 4096 + (p - b) / 4096);
        assert(q / 4096 == b / 4096 + (q - b) / 4096);
    }
}

/// A page that comes into the balloon or leaves it moves no other page: each of them is in it
/// afterwards exactly if it was before.
pub proof fn law_other_pages_stay(v: InflatedView, p: int, q: int)
    requires
        v.wf(),
        0 <= p <= usize::MAX,
        0 <= q <= usize::MAX,
        p / 4096 != q / 4096,
    ensures
        v.inflate(p).0.holds(q) == v.holds(q),
        v.deflate(p).0.holds(q) == v.holds(q),
        v.inflate(p).0.host_page == v.host_page,
        v.deflate(p).0.host_page == v.host_page,
{
    let hp = v.host_page;
    reclaim::lemma_page(hp, p);
    reclaim::lemma_page(hp, q);
    lemma_pages_apart(hp, p, q);
    let b = reclaim::page_base(hp, p) as u64;
    let k = reclaim::page_sub(hp, p) as u64;
    let c = reclaim::page_base(hp, q) as u64;
    let j = reclaim::page_sub(hp, q) as u64;
    let was = if v.mask.contains_key(b) {
        v.mask[b]
    } else {
        0
    };
    assert((0u64 >> j) & 1 != 1) by (bit_vector);
    if b == c {
        reclaim::lemma_set_bit(was, k, j);
        reclaim::lemma_clear_bit(was, k, j);
    }
}

/// Other host pages than the page's own are neither given back nor taken back with it.
pub proof fn law_other_host_pages_stay(v: InflatedView, p: int, c: u64)
    requires
        v.wf(),
        0 <= p <= usize::MAX,
        c != reclaim::page_base(v.host_page, p),
    ensures
        v.inflate(p).0.ballooned.contains(c) == v.ballooned.contains(c),
        v.deflate(p).0.ballooned.contains(c) == v.ballooned.contains(c),
{
    reclaim::lemma_page(v.host_page, p);
}

/// A page that leaves takes its host page back exactly if that had been given back, and then it
/// is the guest's. When the page comes back, so does the host page; and where a host page could
/// not be given back, it is offered again with the next page of it that comes.
pub proof fn law_host_page_goes_and_comes(v: InflatedView, p: int)
    requires
        v.wf(),
        0 <= p <= usize::MAX,
    ensures
        ({
            let b = reclaim::page_base(v.host_page, p) as u64;
            let out = v.deflate(p).0;
            &&& v.deflate(p).1 == v.ballooned.contains(b)
            &&& !out.ballooned.contains(b)
            &&& !out.deflate(p).1
            &&& v.ballooned.contains(b) ==> out.inflate(p).1
            &&& v.ballooned.contains(b) ==> out.inflate(p).0.ballooned.contains(b)
            &&& v.ballooned.contains(b) ==> !v.inflate(p).1
            &&& v.ballooned.contains(b) ==> v.not_released(b as usize).inflate(p).1
            &&& v.inflate(p).1 ==> v.inflate(p).0.ballooned.contains(b)
            &&& v.not_released(b as usize).mask == v.mask
        }),
{
    reclaim::lemma_page(v.host_page, p);
    let b = reclaim::page_base(v.host_page, p) as u64;
    let k = reclaim::page_sub(v.host_page, p) as u64;
    let n = (v.host_page / 4096) as u64;
    if v.ballooned.contains(b) {
        let m = v.mask[b];
        reclaim::lemma_covers(m, n);
        assert(m & m == m) by (bit_vector);
        assert(reclaim::has(m, k));
        assert(((m & !(1u64 << k)) | (1u64 << k)) == m && (m & !(1u64 << k) == 0 ==> 0u64 | (1u64
            << k) == m) && m | (1u64 << k) == m) by (bit_vector)
            requires
                (m >> k) & 1 == 1,
                k < 64,
        ;
    }
}

/// The frame numbers in a buffer are its four-byte numbers, low byte first, one behind the other;
/// what is left over of it is no number.
pub proof fn law_frame_numbers(s: Seq<u8>, i: int)
    requires
        0 <= i < s.len() / 4,
    ensures
        inflate::frames_of(s).len() == s.len() / 4,
        inflate::frames_of(s)[i] == s[4 * i] + 256 * s[4 * i + 1] + 65536 * s[4 * i + 2] + 16777216
            * s[4 * i + 3],
    decreases s.len(),
{
    codec::law_numbers_are_read(s);
    let rest = s.skip(4);
    lemma_frame_count(rest);
    if i > 0 {
        law_frame_numbers(rest, i - 1);
    }
}

proof fn lemma_frame_count(s: Seq<u8>)
    ensures
        inflate::frames_of(s).len() == s.len() / 4,
    decreases s.len(),
{
    codec::law_numbers_are_read(s);
    if s.len() >= 4 {
        lemma_frame_count(s.skip(4));
    }
}

/// Frames are four KiB: a frame's number is its guest-physical address without the lowest twelve
/// bits. A frame is known to the host exactly where guest memory holds that address.
pub proof fn law_frames_are_four_kib(regions: Seq<(u64, u64)>, pfn: u32, frame: Frame)
    requires
        queues::names(regions, pfn, frame),
    ensures
        frame.guest / 4096 == pfn,
        frame.guest % 4096 == 0,
        frame.host is Some <==> exists|i: int|
            0 <= i < regions.len() && (#[trigger] regions[i]).0 <= pfn * 4096 < regions[i].0
                + regions[i].1,
{
    if exists|i: int|
        0 <= i < regions.len() && (#[trigger] regions[i]).0 <= pfn * 4096 < regions[i].0
            + regions[i].1 {
        let i = choose|i: int|
            0 <= i < regions.len() && (#[trigger] regions[i]).0 <= pfn * 4096 < regions[i].0
                + regions[i].1;
        assert(guest_memory::in_region(regions[i], pfn * 4096));
    }
}

/// A frame that is put in or taken out asks for the host page around it: where that lies in the
/// guest is as far below the frame as it is in the host. A frame that no guest memory holds asks
/// for nothing, and neither does one whose host page began below the guest's addresses.
pub proof fn law_host_page_lies_around_the_frame(b: BalloonView, f: Frame, host: usize)
    requires
        b.inflated.wf(),
        f.host == Some(host),
    ensures
        ({
            let page = b.inflated.host_page;
            let (after_in, need_in) = b.item(Item::In(f));
            let (after_out, need_out) = b.item(Item::Out(f));
            let below = host as int % page as int;
            &&& need_in matches Some(n) ==> (n matches Need::Release { run, inflated } && inflated
                && run.0 == host - below && run.1 == f.guest - below && run.2 == page)
            &&& need_out matches Some(n) ==> (n matches Need::Reclaim { gpa, len } && gpa == f.guest
                - below && len == page)
            &&& f.guest < below ==> need_in is None && need_out is None && after_in == b
                && after_out == b
            &&& f.guest >= below ==> after_in.inflated == b.inflated.inflate(host as int).0
            &&& f.guest >= below ==> after_out.inflated == b.inflated.deflate(host as int).0
            &&& f.guest >= below ==> need_in is Some == b.inflated.inflate(host as int).1
            &&& f.guest >= below ==> need_out is Some == b.inflated.deflate(host as int).1
            &&& after_in.reclaimed_bytes == b.reclaimed_bytes
            &&& after_out.reclaimed_bytes == b.reclaimed_bytes
            &&& b.item(Item::In(Frame { host: None, ..f })) == (b, None::<Need>)
            &&& b.item(Item::Out(Frame { host: None, ..f })) == (b, None::<Need>)
        }),
{
    reclaim::lemma_page(b.inflated.host_page, host as int);
}

/// What the host took is counted by its length; what it did not take is not counted, and a host
/// page of the balloon is then offered again later. A stretch that the guest reported free is
/// released as it was reported, and moves nothing in the balloon.
pub proof fn law_what_went_back_is_counted(b: BalloonView, run: Run, inflated: bool)
    requires
        b.reclaimed_bytes + run.2 <= u64::MAX,
    ensures
        b.answered(run, inflated, true).reclaimed_bytes == b.reclaimed_bytes + run.2,
        b.answered(run, inflated, true).inflated == b.inflated,
        b.answered(run, inflated, false).reclaimed_bytes == b.reclaimed_bytes,
        b.answered(run, inflated, false).inflated.mask == b.inflated.mask,
        b.answered(run, true, false).inflated.ballooned == b.inflated.ballooned.remove(
            run.0 as u64,
        ),
        b.answered(run, false, false) == b,
        b.item(Item::Free(run)) == (b, Some(Need::Release { run, inflated: false })),
{
}

/// What a chain asks for is done in order and all of it: the first that the host is needed for
/// waits for the host's answer, and whatever comes behind it waits too.
pub proof fn law_items_are_done_in_order(b: BalloonView, first: Item, rest: Seq<Item>)
    ensures
        ({
            let items = seq![first] + rest;
            let (after, need) = b.item(first);
            &&& need is Some ==> b.work(items) == (after, rest, need)
            &&& need is None ==> b.work(items) == after.work(rest)
            &&& b.work(Seq::empty()) == (b, Seq::<Item>::empty(), None::<Need>)
        }),
{
    let items = seq![first] + rest;
    assert(items.skip(1) =~= rest);
}

/// A drain asks for what its items need, gives each chain back with nothing written into it once
/// nothing of it is left, takes the next one then, and ends with the queue.
pub proof fn law_drain_takes_turns(
    d: PageDrainView,
    b: BalloonView,
    index: u16,
    run: Run,
    inflated: bool,
    ok: bool,
)
    ensures
        ({
            let popping = PageDrainView { phase: PagePhase::Popping, ..d };
            let returning = PageDrainView { phase: PagePhase::Returning { index }, ..d };
            let releasing = PageDrainView {
                phase: PagePhase::Releasing { index, run, inflated },
                items: Seq::empty(),
                ..d
            };
            &&& popping.after(b, PageReplyView::Empty).0.phase == PagePhase::Over
            &&& popping.after(b, PageReplyView::Empty).1 == b
            &&& popping.after(b, PageReplyView::Head { index, items: Seq::empty() }).0.phase
                == PagePhase::Returning { index }
            &&& returning.after(b, PageReplyView::Done).0.phase == PagePhase::Popping
            &&& returning.after(b, PageReplyView::Done).1 == b
            &&& releasing.after(b, PageReplyView::Released(ok)).0.phase == PagePhase::Returning {
                index,
            }
            &&& releasing.after(b, PageReplyView::Released(ok)).1 == b.answered(run, inflated, ok)
        }),
{
}

/// The buffer is a stretch of guest memory that fits both address spaces, `host` being where the
/// host has it.
pub open spec fn is_stretch(
    host_page: usize,
    regions: Seq<(u64, u64)>,
    buf: (u64, u32),
    host: usize,
) -> bool {
    guest_memory::holds(regions, buf.0 as int) && reclaim::fits(
        host_page,
        (host, buf.0, buf.1 as usize),
    )
}

/// The stretches of a free page report are its buffers, in order, each where the host has it and as
/// long as the guest says; those outside guest memory are left out.
pub proof fn law_stretches_of_a_report(
    host_page: usize,
    regions: Seq<(u64, u64)>,
    bufs: Seq<(u64, u32)>,
    hosts: Seq<usize>,
    last: (u64, u32),
)
    requires
        hosts.len() > bufs.len(),
    ensures
        ({
            let before = queues::free_runs(host_page, regions, bufs, hosts);
            let after = queues::free_runs(host_page, regions, bufs.push(last), hosts);
            let host = hosts[bufs.len() as int];
            &&& queues::free_runs(host_page, regions, Seq::empty(), hosts).len() == 0
            &&& is_stretch(host_page, regions, last, host) ==> after == before.push(
                (host, last.0, last.1 as usize),
            )
            &&& !is_stretch(host_page, regions, last, host) ==> after == before
        }),
{
    assert(bufs.push(last).drop_last() =~= bufs);
}

/// The frame numbers of a buffer are read up to the first whose four bytes guest memory does not
/// hold: all of them where it holds them all.
pub proof fn law_frames_up_to_the_first_hole(regions: Seq<(u64, u64)>, addr: int, n: nat, i: nat)
    requires
        i < n,
    ensures
        ({
            let k = queues::readable_frames(regions, addr, n);
            &&& k <= n
            &&& i < k ==> guest_memory::spans(regions, addr + 4 * i, 4)
            &&& i == k ==> !guest_memory::spans(regions, addr + 4 * i, 4)
        }),
    decreases n,
{
    if guest_memory::spans(regions, addr, 4) {
        if i > 0 {
            law_frames_up_to_the_first_hole(regions, addr + 4, (n - 1) as nat, (i - 1) as nat);
            assert(addr + 4 + 4 * (i - 1) == addr + 4 * i);
        } else if n > 1 {
            law_frames_up_to_the_first_hole(regions, addr + 4, (n - 1) as nat, 0);
        }
    }
}

/// The frame numbers of a chain are those of its buffers together, four bytes each.
pub proof fn law_frames_of_a_chain(regions: Seq<(u64, u64)>, bufs: Seq<(u64, u32)>, last: (u64, u32))
    ensures
        queues::all_readable_frames(regions, Seq::empty()) == 0,
        queues::all_readable_frames(regions, bufs.push(last)) == queues::all_readable_frames(
            regions,
            bufs,
        ) + queues::readable_frames(regions, last.0 as int, (last.1 / 4) as nat),
{
    assert(bufs.push(last).drop_last() =~= bufs);
}

} // verus!
