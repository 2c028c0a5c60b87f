//! The balloon: guest pages of 4 KiB on host pages of 16 KiB. A host page goes back only once every
//! one of its guest pages is free.
use devices::balloon::device::{
    ActivateError, Balloon, BalloonError, BalloonStats, VirtioBalloonConfig, NUM_QUEUES,
};
use devices::balloon::inflate::{frame_address, read_frames, Inflated};
use devices::balloon::drain::{Item, PageDrain, PageQueue, PageReply, PageRequest};
use devices::balloon::queues::{look_up, read_buffer, read_chain, Buffer, Frame, FrameError};
use devices::balloon::reclaim::{full_mask, ReclaimCoalescer, GUEST_PAGE};
use devices::balloon::runs::{merge_runs, reclaim_report};
use vm_memory::{Bytes, GuestAddress, GuestMemory, GuestMemoryMmap};

const HOST_16K: usize = 16384;
/// Aligned to 16 KiB, as the guest's memory is.
const BASE: usize = 0x4000_0000;
/// A host address and a guest address differ by a fixed amount in each region.
const GPA_DELTA: usize = 0x3000_0000;

fn gpa(host: usize) -> u64 {
    (host - GPA_DELTA) as u64
}

fn add(c: &mut ReclaimCoalescer, host: usize, len: usize) {
    c.add(host, gpa(host), len);
}

#[test]
fn full_host_page_emitted_only_when_all_subpages_free() {
    // Three of four are free: nothing goes back.
    let mut c = ReclaimCoalescer::new(HOST_16K);
    add(&mut c, BASE, 3 * GUEST_PAGE);
    assert!(
        c.take_full_pages().is_empty(),
        "a 3-of-4 host page must never be reclaimed"
    );

    // The fourth completes the page, which goes back with the guest address of its base.
    let mut c = ReclaimCoalescer::new(HOST_16K);
    add(&mut c, BASE, 4 * GUEST_PAGE);
    assert_eq!(c.take_full_pages(), vec![(BASE, gpa(BASE), HOST_16K)]);
}

#[test]
fn unaligned_start_does_not_count_the_partial_leading_page() {
    // A run that starts 2 KiB into a guest page: that page is free in part and does not count.
    let mut c = ReclaimCoalescer::new(HOST_16K);
    add(&mut c, BASE + GUEST_PAGE / 2, 4 * GUEST_PAGE);
    assert!(
        c.take_full_pages().is_empty(),
        "an unaligned fringe must never reclaim its partial page"
    );
}

#[test]
fn boundary_spanning_run_completes_two_host_pages() {
    let mut c = ReclaimCoalescer::new(HOST_16K);
    add(&mut c, BASE, 8 * GUEST_PAGE);
    let mut got = c.take_full_pages();
    got.sort();
    assert_eq!(
        got,
        vec![
            (BASE, gpa(BASE), HOST_16K),
            (BASE + HOST_16K, gpa(BASE + HOST_16K), HOST_16K)
        ]
    );
}

#[test]
fn split_descriptors_in_one_head_accumulate() {
    // A run that starts in the middle of a host page still gives the page the address of its base.
    let mut c = ReclaimCoalescer::new(HOST_16K);
    for i in 0..4 {
        add(&mut c, BASE + i * GUEST_PAGE, GUEST_PAGE);
    }
    assert_eq!(c.take_full_pages(), vec![(BASE, gpa(BASE), HOST_16K)]);
}

#[test]
fn trailing_partial_page_is_not_reclaimed() {
    let mut c = ReclaimCoalescer::new(HOST_16K);
    add(&mut c, BASE, 4 * GUEST_PAGE + GUEST_PAGE / 2);
    assert_eq!(c.take_full_pages(), vec![(BASE, gpa(BASE), HOST_16K)]);
}

#[test]
fn merge_runs_joins_only_pages_contiguous_in_both_spaces() {
    // Pages that follow each other in both spaces make one run.
    let contiguous = vec![
        (BASE + HOST_16K, gpa(BASE + HOST_16K), HOST_16K),
        (BASE, gpa(BASE), HOST_16K),
    ];
    assert_eq!(
        merge_runs(contiguous),
        vec![(BASE, gpa(BASE), 2 * HOST_16K)]
    );

    // A gap in the host's space keeps runs apart.
    let gapped = vec![
        (BASE, gpa(BASE), HOST_16K),
        (BASE + 3 * HOST_16K, gpa(BASE + 3 * HOST_16K), HOST_16K),
    ];
    assert_eq!(merge_runs(gapped.clone()), gapped);

    // So does a step in the guest's space.
    let split_gpa = vec![
        (BASE, gpa(BASE), HOST_16K),
        (BASE + HOST_16K, gpa(BASE) + 0x1000_0000, HOST_16K),
    ];
    assert_eq!(merge_runs(split_gpa.clone()), split_gpa);
}

#[test]
fn merging_sorts_first() {
    let scattered = vec![
        (BASE + 2 * HOST_16K, gpa(BASE + 2 * HOST_16K), HOST_16K),
        (BASE, gpa(BASE), HOST_16K),
        (BASE + HOST_16K, gpa(BASE + HOST_16K), HOST_16K),
    ];
    assert_eq!(merge_runs(scattered), vec![(BASE, gpa(BASE), 3 * HOST_16K)]);
    assert!(merge_runs(Vec::new()).is_empty());
}

#[test]
fn a_full_page_is_one_bit_for_each_guest_page() {
    assert_eq!(full_mask(HOST_16K), 0xf);
    assert_eq!(full_mask(GUEST_PAGE), 1);
    assert_eq!(full_mask(64 * GUEST_PAGE), u64::MAX);
}

#[test]
fn a_report_gives_back_whole_pages_in_merged_runs() {
    let free = vec![
        (BASE + HOST_16K, gpa(BASE + HOST_16K), HOST_16K),
        (BASE, gpa(BASE), HOST_16K),
        (BASE + 4 * HOST_16K, gpa(BASE + 4 * HOST_16K), GUEST_PAGE),
    ];
    assert_eq!(
        reclaim_report(HOST_16K, &free),
        vec![(BASE, gpa(BASE), 2 * HOST_16K)]
    );
}

#[test]
fn a_report_releases_no_page_twice_and_none_in_part() {
    // The same page twice, half of another, and one that two stretches make up.
    let free = vec![
        (BASE, gpa(BASE), HOST_16K),
        (BASE, gpa(BASE), HOST_16K),
        (BASE + 2 * HOST_16K, gpa(BASE + 2 * HOST_16K), HOST_16K / 2),
        (BASE + 4 * HOST_16K, gpa(BASE + 4 * HOST_16K), HOST_16K / 2),
        (
            BASE + 4 * HOST_16K + HOST_16K / 2,
            gpa(BASE + 4 * HOST_16K + HOST_16K / 2),
            HOST_16K / 2,
        ),
    ];
    assert_eq!(
        reclaim_report(HOST_16K, &free),
        vec![
            (BASE, gpa(BASE), HOST_16K),
            (BASE + 4 * HOST_16K, gpa(BASE + 4 * HOST_16K), HOST_16K)
        ]
    );
}

#[test]
fn a_report_reaches_up_to_the_top_of_the_address_space() {
    let top = usize::MAX - HOST_16K + 1;
    let below = top - HOST_16K;
    // All of the page below the last, and all of the last but its last guest page.
    let free = vec![(below, 0x4000, 2 * HOST_16K - GUEST_PAGE)];
    assert_eq!(
        reclaim_report(HOST_16K, &free),
        vec![(below, 0x4000, HOST_16K)]
    );
}

#[test]
fn the_order_of_pages_does_not_matter() {
    let page = |i: usize| (BASE + i * HOST_16K, gpa(BASE + i * HOST_16K), HOST_16K);
    let joined = vec![
        (BASE, gpa(BASE), 2 * HOST_16K),
        (BASE + 3 * HOST_16K, gpa(BASE + 3 * HOST_16K), HOST_16K),
    ];
    assert_eq!(merge_runs(vec![page(0), page(1), page(3)]), joined);
    assert_eq!(merge_runs(vec![page(3), page(1), page(0)]), joined);
    assert_eq!(merge_runs(vec![page(1), page(3), page(0)]), joined);
    // A run that ends at the top of the guest's addresses is followed by none.
    let last = vec![
        (BASE, u64::MAX - HOST_16K as u64 + 1, HOST_16K),
        (BASE + HOST_16K, 0, HOST_16K),
    ];
    assert_eq!(merge_runs(last.clone()), last);
}

#[test]
fn a_host_page_goes_back_once_however_its_pages_come() {
    let mut b = Inflated::new(HOST_16K);
    let at = |page: usize, i: usize| BASE + page * HOST_16K + i * GUEST_PAGE;
    let order = [
        (0, 2),
        (1, 0),
        (0, 2),
        (0, 0),
        (1, 3),
        (0, 3),
        (0, 1),
        (0, 1),
        (1, 1),
        (0, 0),
    ];
    let mut released = Vec::new();
    for (page, i) in order {
        if let Some((base, _)) = b.inflate(at(page, i), gpa(at(page, i))) {
            released.push(base);
        }
    }
    assert_eq!(released, vec![BASE]);
}

#[test]
fn taking_the_full_pages_leaves_none_behind() {
    let mut c = ReclaimCoalescer::new(HOST_16K);
    add(&mut c, BASE, 4 * GUEST_PAGE);
    assert_eq!(c.take_full_pages().len(), 1);
    assert!(c.take_full_pages().is_empty());
}

#[test]
fn frames_are_little_endian_numbers_of_4_kib_pages() {
    assert_eq!(frame_address(0), 0);
    assert_eq!(frame_address(3), 0x3000);
    assert_eq!(frame_address(u32::MAX), 0xffff_ffff_000);
    assert_eq!(read_frames(&[1, 0, 0, 0, 0, 1, 0, 0]), vec![1, 256]);
    assert_eq!(read_frames(&[1, 0, 0, 0, 9]), vec![1]);
    assert!(read_frames(&[]).is_empty());
}

#[test]
fn a_host_page_goes_back_with_its_last_guest_page() {
    let mut b = Inflated::new(HOST_16K);
    let base = 0x10_0000usize;
    for i in 0..3usize {
        let at = base + i * 4096;
        assert_eq!(b.inflate(at, 0x8000_0000 + (i as u64) * 4096), None);
    }
    assert_eq!(
        b.inflate(base + 3 * 4096, 0x8000_3000),
        Some((base, 0x8000_0000))
    );
    // One guest page that comes back takes the host page back, once.
    assert_eq!(
        b.deflate(base + 4096, 0x8000_1000),
        Some((base, 0x8000_0000))
    );
    assert_eq!(b.deflate(base + 2 * 4096, 0x8000_2000), None);
}

#[test]
fn a_page_that_could_not_go_back_is_not_taken_back() {
    let mut b = Inflated::new(4096);
    assert_eq!(b.inflate(0x5000, 0x5000), Some((0x5000, 0x5000)));
    b.not_released(0x5000);
    assert_eq!(b.deflate(0x5000, 0x5000), None);
    b.clear();
    assert_eq!(b.inflate(0x5000, 0x5000), Some((0x5000, 0x5000)));
}

#[test]
fn features_follow_what_is_asked_for() {
    assert_eq!(
        Balloon::new(false, false, 4096).avail_features(),
        (1 << 32) | (1 << 1) | (1 << 3)
    );
    assert_eq!(
        Balloon::new(true, true, 4096).avail_features(),
        (1 << 32) | (1 << 1) | (1 << 3) | (1 << 5) | (1 << 2)
    );
    let mut b = Balloon::new(true, false, 4096);
    assert_eq!(b.acked_features(), 0);
    b.set_acked_features(32);
    assert_eq!(b.acked_features(), 32);
}

#[test]
fn the_target_reaches_the_guest_through_the_config_space() {
    let mut b = Balloon::new(false, false, 4096);
    assert!(!b.apply_target());
    b.set_target_pages(7);
    b.set_target_pages(0x0102_0304);
    assert!(b.apply_target());
    assert!(!b.apply_target());
    let mut data = [0u8; 4];
    b.read_config(0, &mut data);
    assert_eq!(data, [4, 3, 2, 1]);
    // A read that runs past the end gets what there is.
    let mut tail = [9u8; 6];
    b.read_config(12, &mut tail);
    assert_eq!(tail, [0, 0, 0, 0, 9, 9]);
    let mut past = [9u8; 2];
    b.read_config(16, &mut past);
    assert_eq!(past, [9, 9]);
}

#[test]
fn the_guest_says_how_much_is_in_its_balloon() {
    let mut b = Balloon::new(false, false, 4096);
    b.write_config(4, &[5, 0, 0, 0]);
    assert_eq!(b.get_actual(), 5);
    // A write that does not lie inside is ignored.
    b.write_config(14, &[1, 1, 1, 1]);
    b.write_config(u64::MAX, &[1]);
    assert_eq!(b.get_actual(), 5);
    assert_eq!(
        b.get_stats(),
        BalloonStats {
            actual_pages: 5,
            reclaimed_bytes: 0
        }
    );
    b.report_released(4096);
    b.released(0, 4096, true);
    assert_eq!(b.get_stats().reclaimed_bytes, 8192);
    assert_eq!(BalloonStats::default().actual_pages, 0);
    assert_eq!(VirtioBalloonConfig::default().num_pages, 0);
}

#[test]
fn activation_wants_all_queues_and_a_loop_that_hears() {
    let mut b = Balloon::new(false, false, 4096);
    assert_eq!(b.activate(1, true), Err(ActivateError::BadActivate));
    assert_eq!(b.activate(NUM_QUEUES, false), Err(ActivateError::BadActivate));
    assert!(!b.is_activated());
    assert_eq!(b.activate(NUM_QUEUES, true), Ok(()));
    assert!(b.is_activated());
    b.set_target_pages(1);
    assert_eq!(b.inflate(0x5000, 0x5000), Some((0x5000, 0x5000)));
    assert!(b.reset());
    // A reset forgets what was asked for and what is in the balloon.
    assert!(!b.is_activated());
    assert!(!b.apply_target());
    assert_eq!(b.deflate(0x5000, 0x5000), None);
    assert_eq!(BalloonError::EventFd(24), BalloonError::EventFd(24));
}

/// Sixteen host pages of guest memory, and the host address that they begin at.
fn guest() -> (GuestMemoryMmap, usize) {
    let mem = GuestMemoryMmap::from_ranges(&[(GuestAddress(0x10_0000), 16 * HOST_16K)]).unwrap();
    let host = mem.get_host_address(GuestAddress(0x10_0000)).unwrap() as usize;
    (mem, host)
}

/// The guest address of the first host page that lies whole in guest memory.
fn first_page(host: usize) -> u64 {
    let up = (host + HOST_16K - 1) / HOST_16K * HOST_16K;
    0x10_0000 + (up - host) as u64
}

#[test]
fn frame_numbers_are_read_as_far_as_memory_goes() {
    let (mem, _) = guest();
    let end = 0x10_0000 + 16 * HOST_16K as u64;
    for (i, pfn) in [0x100u32, 0x101, 7].iter().enumerate() {
        mem.write_slice(&pfn.to_le_bytes(), GuestAddress(end - 12 + 4 * i as u64))
            .unwrap();
    }
    assert_eq!(read_buffer(&mem, (end - 12, 10)), vec![0x100, 0x101]);
    assert_eq!(read_buffer(&mem, (end - 12, 400)), vec![0x100, 0x101, 7]);
    assert_eq!(read_buffer(&mem, (end, 8)), Vec::<u32>::new());
    assert_eq!(read_buffer(&mem, (end - 12, 3)), Vec::<u32>::new());
    // A buffer that reaches over the top of the addresses ends where memory does.
    assert_eq!(read_buffer(&mem, (u64::MAX - 3, 16)), Vec::<u32>::new());
    assert_eq!(
        read_buffer(&mem, (end - 4, u32::MAX)),
        vec![7],
        "one number is left"
    );
}

#[test]
fn frames_in_guest_memory_fill_and_leave_the_balloon() {
    let (mem, host) = guest();
    let mut b = Balloon::new(true, false, HOST_16K);
    assert_eq!((b.host_page(), b.id()), (HOST_16K, "virtio_balloon"));
    let gpa = first_page(host);
    let base = host + (gpa - 0x10_0000) as usize;
    let first = (gpa / 4096) as u32;
    for i in 0..3 {
        assert_eq!(b.process_ifq(look_up(&mem, first + i)), Ok(None));
    }
    assert_eq!(b.process_ifq(look_up(&mem, first + 3)), Ok(Some((base, gpa))));
    b.released(base, HOST_16K, true);
    assert_eq!(b.process_dfq(look_up(&mem, first + 1)), Ok(Some((base, gpa))));
    assert_eq!(b.process_dfq(look_up(&mem, first + 2)), Ok(None));
    // A frame that lies lower in the guest than in its host page.
    let low = Frame {
        guest: 0x1000,
        host: Some(base + 0x2000),
    };
    assert_eq!(b.process_ifq(low), Err(FrameError::BelowGuest));
    assert_eq!(b.process_dfq(low), Err(FrameError::BelowGuest));
    assert!(!b.in_reach(&vec![Item::In(look_up(&mem, first)), Item::Out(low)]));
    assert!(b.in_reach(&vec![Item::In(look_up(&mem, first)), Item::Free((base, gpa, HOST_16K))]));
    // Frame zero is not in this guest's memory.
    assert_eq!(b.process_ifq(look_up(&mem, 0)), Err(FrameError::NotInGuest));
    assert_eq!(b.process_dfq(look_up(&mem, 0)), Err(FrameError::NotInGuest));
}

#[test]
fn a_report_is_looked_up_in_guest_memory() {
    let (mem, host) = guest();
    let b = Balloon::new(true, false, HOST_16K);
    let gpa = first_page(host);
    let base = host + (gpa - 0x10_0000) as usize;
    // Two halves make two host pages; what lies outside is passed over.
    let bufs = vec![
        (gpa, HOST_16K as u32),
        (0x10, 0x4000),
        (gpa + HOST_16K as u64, HOST_16K as u32),
        (gpa + 4 * HOST_16K as u64, 4096),
    ];
    assert_eq!(
        b.process_frq(&mem, &bufs),
        vec![(base, gpa, 2 * HOST_16K)]
    );
    assert!(b.process_frq(&mem, &vec![(0x10, 0x4000)]).is_empty());
    // A page that is reported twice is released once.
    assert_eq!(
        b.process_frq(&mem, &vec![(gpa, HOST_16K as u32), (gpa, HOST_16K as u32)]),
        vec![(base, gpa, HOST_16K)]
    );
}

/// A queue whose chains are given, and what a drain does with them.
#[derive(Default)]
struct Played {
    heads: Vec<(u16, Vec<Buffer>)>,
    /// How many releases are refused before they go well.
    refusals: usize,
    released: Vec<(usize, u64, usize)>,
    reclaimed: Vec<(u64, usize)>,
    used: Vec<(u16, u32)>,
}

impl Played {
    fn drain(&mut self, b: &mut Balloon, mem: &GuestMemoryMmap, which: PageQueue) -> bool {
        let mut d = PageDrain::new();
        while let Some(request) = d.next() {
            let reply = match request {
                PageRequest::Pop if self.heads.is_empty() => PageReply::Empty,
                PageRequest::Pop => {
                    let (index, bufs) = self.heads.remove(0);
                    let items = b.read_head(which, mem, &bufs);
                    assert!(b.in_reach(&items));
                    PageReply::Head { index, items }
                }
                PageRequest::Release { base, gpa, len } => {
                    let ok = self.refusals == 0;
                    self.refusals = self.refusals.saturating_sub(1);
                    if ok {
                        self.released.push((base, gpa, len));
                    }
                    PageReply::Released(ok)
                }
                PageRequest::Reclaim { gpa, len } => {
                    self.reclaimed.push((gpa, len));
                    PageReply::Done
                }
                PageRequest::AddUsed { index, written } => {
                    self.used.push((index, written));
                    PageReply::Done
                }
            };
            d.advance(b, reply);
        }
        d.have_used()
    }
}

/// Writes frame numbers into guest memory and gives the buffer that holds them.
fn frames_at(mem: &GuestMemoryMmap, at: u64, pfns: &[u32]) -> Buffer {
    for (i, pfn) in pfns.iter().enumerate() {
        mem.write_slice(&pfn.to_le_bytes(), GuestAddress(at + 4 * i as u64))
            .unwrap();
    }
    (at, 4 * pfns.len() as u32)
}

#[test]
fn inflated_pages_go_back_across_chains_and_drains() {
    let (mem, host) = guest();
    let mut b = Balloon::new(true, false, HOST_16K);
    let gpa = first_page(host);
    let base = host + (gpa - 0x10_0000) as usize;
    let first = (gpa / 4096) as u32;
    let end = 0x10_0000 + 16 * HOST_16K as u64;
    let one = frames_at(&mem, end - 64, &[first, 0, first + 1]);
    let two = frames_at(&mem, end - 32, &[first + 2]);
    let three = frames_at(&mem, end - 16, &[first + 3, first + 3]);
    let mut q = Played {
        heads: vec![(4, vec![one]), (9, vec![two])],
        ..Default::default()
    };
    // Three of four pages: nothing goes back, but both chains do.
    assert!(q.drain(&mut b, &mem, PageQueue::Inflate));
    assert_eq!(q.used, vec![(4, 0), (9, 0)]);
    assert!(q.released.is_empty());
    // An empty queue tells the guest nothing.
    assert!(!q.drain(&mut b, &mem, PageQueue::Inflate));
    // The last page completes the host page, and a second mention of it does not.
    q.heads = vec![(1, vec![three])];
    assert!(q.drain(&mut b, &mem, PageQueue::Inflate));
    assert_eq!(q.released, vec![(base, gpa, HOST_16K)]);
    assert_eq!(q.used, vec![(4, 0), (9, 0), (1, 0)]);
    assert_eq!(b.get_stats().reclaimed_bytes, HOST_16K as u64);
    // Taking a page out takes the host page back, once.
    q.heads = vec![(2, vec![two]), (3, vec![one])];
    assert!(q.drain(&mut b, &mem, PageQueue::Deflate));
    assert_eq!(q.reclaimed, vec![(gpa, HOST_16K)]);
    assert_eq!(q.used[3..], [(2, 0), (3, 0)]);
}

#[test]
fn a_refused_release_is_tried_again() {
    let (mem, host) = guest();
    let mut b = Balloon::new(true, false, HOST_16K);
    let gpa = first_page(host);
    let first = (gpa / 4096) as u32;
    let end = 0x10_0000 + 16 * HOST_16K as u64;
    let all = frames_at(&mem, end - 64, &[first, first + 1, first + 2, first + 3]);
    let again = frames_at(&mem, end - 16, &[first]);
    let mut q = Played {
        heads: vec![(0, vec![all]), (1, vec![again])],
        refusals: 1,
        ..Default::default()
    };
    assert!(q.drain(&mut b, &mem, PageQueue::Inflate));
    assert_eq!(q.released.len(), 1);
    assert_eq!(b.get_stats().reclaimed_bytes, HOST_16K as u64);
}

#[test]
fn a_report_is_released_before_it_goes_back() {
    let (mem, host) = guest();
    let mut b = Balloon::new(true, false, HOST_16K);
    let gpa = first_page(host);
    let base = host + (gpa - 0x10_0000) as usize;
    let page = HOST_16K as u64;
    let mut q = Played {
        heads: vec![(
            6,
            vec![(gpa, HOST_16K as u32), (gpa + 3 * page, HOST_16K as u32)],
        )],
        ..Default::default()
    };
    assert!(q.drain(&mut b, &mem, PageQueue::Report));
    assert_eq!(
        q.released,
        vec![
            (base, gpa, HOST_16K),
            (base + 3 * HOST_16K, gpa + 3 * page, HOST_16K)
        ]
    );
    assert_eq!(q.used, vec![(6, 0)]);
    assert_eq!(b.get_stats().reclaimed_bytes, 2 * page);
    // A chain whose release is refused goes back all the same, and is not counted.
    q.heads = vec![(7, vec![(gpa, HOST_16K as u32)])];
    q.refusals = 1;
    assert!(q.drain(&mut b, &mem, PageQueue::Report));
    assert_eq!(q.used, vec![(6, 0), (7, 0)]);
    assert_eq!(b.get_stats().reclaimed_bytes, 2 * page);
}

#[test]
fn a_chain_names_the_frames_of_all_its_buffers() {
    let (mem, host) = guest();
    let end = 0x10_0000 + 16 * HOST_16K as u64;
    let one = frames_at(&mem, end - 64, &[0x100, 5]);
    let two = frames_at(&mem, end - 32, &[0x101]);
    assert_eq!(
        read_chain(&mem, &vec![one, (0x10, 8), two]),
        vec![
            Frame {
                guest: 0x10_0000,
                host: Some(host)
            },
            Frame {
                guest: 0x5000,
                host: None
            },
            Frame {
                guest: 0x10_1000,
                host: Some(host + 0x1000)
            },
        ]
    );
}

#[test]
fn moving_a_report_in_the_guest_moves_its_pages() {
    let runs = vec![(BASE, 0x8000_0000, 3 * HOST_16K), (BASE + 8 * HOST_16K, 0x9000_0000, HOST_16K)];
    let far: Vec<_> = runs.iter().map(|r| (r.0, r.1 + 0x7_0000_1000, r.2)).collect();
    let moved: Vec<_> = reclaim_report(HOST_16K, &runs)
        .into_iter()
        .map(|r| (r.0, r.1 + 0x7_0000_1000, r.2))
        .collect();
    assert_eq!(moved.len(), 2);
    assert_eq!(reclaim_report(HOST_16K, &far), moved);
}
