//! The balloon itself: which pages the guest gave up, and which host pages went back for it.
//!
//! A host page is given back when every guest page of it is in the balloon. It is taken back as
//! soon as one of them leaves.
use crate::balloon::reclaim;
use crate::balloon::reclaim::{full_mask, GUEST_PAGE};
use crate::codec;
use crate::codec::Cursor;
use crate::ordered;
use std::collections::{BTreeMap, BTreeSet};
use vstd::prelude::*;

verus! {

/// The guest-physical address of a page frame: frames are four KiB.
pub fn frame_address(pfn: u32) -> (r: u64)
    ensures
        r == pfn as u64 * 4096,
{
    pfn as u64 * 4096
}

/// The page frame numbers in a buffer; what is left over of it is ignored.
pub open spec fn frames_of(s: Seq<u8>) -> Seq<u32>
    decreases s.len(),
{
    match codec::dec_u32(s) {
        Some((pfn, rest)) => if rest.len() < s.len() {
            seq![pfn] + frames_of(rest)
        } else {
            Seq::empty()
        },
        None => Seq::empty(),
    }
}

/// Reads the page frame numbers in a buffer.
pub fn read_frames(bytes: &[u8]) -> (r: Vec<u32>)
    ensures
        r@ == frames_of(bytes@),
{
    let mut c: Cursor = Cursor { data: bytes, pos: 0 };
    let mut r: Vec<u32> = Vec::new();
    let mut more: bool = true;
    assert(c.rest() =~= bytes@);
    assert(r@ + frames_of(c.rest()) =~= frames_of(bytes@));
    while more
        invariant
            c.wf(),
            more ==> r@ + frames_of(c.rest()) == frames_of(bytes@),
            !more ==> r@ == frames_of(bytes@),
        decreases c.rest().len() + (if more {
            1int
        } else {
            0int
        }),
    {
        let ghost before = c.rest();
        let ghost done = r@;
        match c.u32() {
            Some(pfn) => {
                r.push(pfn);
                assert(r@ + frames_of(c.rest()) =~= done + (seq![pfn] + frames_of(c.rest())));
            },
            None => {
                more = false;
                assert(done + frames_of(before) =~= done);
            },
        }
    }
    r
}

/// The pages in the balloon.
pub struct Inflated {
    host_page: usize,
    full_mask: u64,
    /// By host page: a mask of its guest pages in the balloon.
    mask: BTreeMap<u64, u64>,
    /// The host pages that were given back.
    ballooned: BTreeSet<u64>,
}

pub struct InflatedView {
    pub host_page: usize,
    pub mask: Map<u64, u64>,
    pub ballooned: Set<u64>,
}

impl View for Inflated {
    type V = InflatedView;

    closed spec fn view(&self) -> InflatedView {
        InflatedView {
            host_page: self.host_page,
            mask: self.mask@,
            ballooned: self.ballooned@,
        }
    }
}

/// A host page to give back or to take back: its host and its guest-physical address.
pub type HostPage = (usize, u64);

impl InflatedView {
    /// The guest page at host address `p` is in the balloon.
    pub open spec fn holds(self, p: int) -> bool {
        let b = reclaim::page_base(self.host_page, p) as u64;
        self.mask.contains_key(b) && reclaim::has(
            self.mask[b],
            reclaim::page_sub(self.host_page, p) as u64,
        )
    }

    pub open spec fn full(self) -> u64 {
        reclaim::low_mask((self.host_page / 4096) as u64)
    }

    /// Only host pages that are in the balloon whole were given back.
    pub open spec fn wf(self) -> bool {
        &&& reclaim::valid_host_page(self.host_page)
        &&& forall|b: u64| #[trigger]
            self.mask.contains_key(b) ==> self.mask[b] & self.full() == self.mask[b]
        &&& forall|b: u64| #[trigger]
            self.ballooned.contains(b) ==> self.mask.contains_key(b) && self.mask[b] == self.full()
    }

    /// The guest page at host address `p` put into the balloon. Says whether its host page is to be
    /// given back now.
    pub open spec fn inflate(self, p: int) -> (Self, bool) {
        let b = reclaim::page_base(self.host_page, p) as u64;
        let k = reclaim::page_sub(self.host_page, p) as u64;
        let was = if self.mask.contains_key(b) {
            self.mask[b]
        } else {
            0
        };
        let now = was | (1u64 << k);
        let put = InflatedView { mask: self.mask.insert(b, now), ..self };
        if now == self.full() && !self.ballooned.contains(b) {
            (InflatedView { ballooned: self.ballooned.insert(b), ..put }, true)
        } else {
            (put, false)
        }
    }

    /// A host page could not be given back.
    pub open spec fn not_released(self, base: usize) -> Self {
        InflatedView { ballooned: self.ballooned.remove(base as u64), ..self }
    }

    /// The guest page at host address `p` taken out of the balloon. Says whether its host page is
    /// to be taken back.
    pub open spec fn deflate(self, p: int) -> (Self, bool) {
        let b = reclaim::page_base(self.host_page, p) as u64;
        let k = reclaim::page_sub(self.host_page, p) as u64;
        let left = if self.mask.contains_key(b) {
            let now = self.mask[b] & !(1u64 << k);
            if now == 0 {
                self.mask.remove(b)
            } else {
                self.mask.insert(b, now)
            }
        } else {
            self.mask
        };
        (
            InflatedView { mask: left, ballooned: self.ballooned.remove(b), ..self },
            self.ballooned.contains(b),
        )
    }
}

impl Inflated {
    /// The masks agree with the host page size.
    pub closed spec fn inv(self) -> bool {
        &&& self@.wf()
        &&& self.full_mask == self@.full()
    }

    pub fn new(host_page: usize) -> (r: Self)
        requires
            reclaim::valid_host_page(host_page),
        ensures
            r.inv(),
            r@ == (InflatedView { host_page, mask: Map::empty(), ballooned: Set::empty() }),
    {
        Inflated {
            host_page,
            full_mask: full_mask(host_page),
            mask: BTreeMap::new(),
            ballooned: BTreeSet::new(),
        }
    }

    /// What the invariant says of the contents.
    pub proof fn lemma_wf(self)
        requires
            self.inv(),
        ensures
            self@.wf(),
    {
    }

    pub fn host_page(&self) -> (r: usize)
        requires
            self.inv(),
        ensures
            r == self@.host_page,
            reclaim::valid_host_page(r),
    {
        self.host_page
    }

    /// The guest put the page at `host_addr`, which it knows as `guest`, into the balloon. Gives
    /// the host page to give back, when this was the last of it.
    pub fn inflate(&mut self, host_addr: usize, guest: u64) -> (r: Option<HostPage>)
        requires
            old(self).inv(),
            guest >= host_addr as int % old(self)@.host_page as int,
        ensures
            final(self).inv(),
            ({
                let (after, release) = old(self)@.inflate(host_addr as int);
                let b = reclaim::page_base(old(self)@.host_page, host_addr as int);
                &&& final(self)@ == after
                &&& r == if release {
                    Some((b as usize, (guest - (host_addr - b)) as u64))
                } else {
                    None
                }
            }),
    {
        proof {
            reclaim::lemma_page(self.host_page, host_addr as int);
        }
        let ghost v = self@;
        let base: usize = host_addr - host_addr % self.host_page;
        let sub: u64 = ((host_addr - base) / GUEST_PAGE) as u64;
        let was: u64 = match ordered::get(&self.mask, base as u64) {
            Some(m) => *m,
            None => 0,
        };
        let now: u64 = was | (1u64 << sub);
        proof {
            let n = (self.host_page / 4096) as u64;
            let m = reclaim::low_mask(n);
            assert(0u64 & m == 0u64) by (bit_vector);
            if self.mask@.contains_key(base as u64) {
                assert(self@.mask.contains_key(base as u64));
            }
            reclaim::lemma_stays_low(was, sub, n);
            lemma_full_stays(was, sub, n);
        }
        ordered::insert(&mut self.mask, base as u64, now);
        let release: bool = now == self.full_mask && !ordered::set_contains(
            &self.ballooned,
            base as u64,
        );
        if release {
            ordered::set_insert(&mut self.ballooned, base as u64);
        }
        proof {
            if v.ballooned.contains(base as u64) {
                assert(v.mask.contains_key(base as u64) && was == v.full());
            }
            lemma_kept(v, self@, base as u64);
        }
        if release {
            Some((base, guest - (host_addr - base) as u64))
        } else {
            None
        }
    }

    /// The host page at `base` could not be given back: it is tried again when the guest next puts
    /// one of its pages into the balloon.
    pub fn not_released(&mut self, base: usize)
        requires
            old(self).inv(),
        ensures
            final(self).inv(),
            final(self)@ == old(self)@.not_released(base),
    {
        let ghost v = self@;
        ordered::set_remove(&mut self.ballooned, base as u64);
        proof {
            if v.mask.contains_key(base as u64) {
                assert(self@.mask[base as u64] == v.mask[base as u64]);
            }
            lemma_kept(v, self@, base as u64);
        }
    }

    /// The guest took the page at `host_addr` out of the balloon. Gives the host page to take back,
    /// where it had gone back whole.
    pub fn deflate(&mut self, host_addr: usize, guest: u64) -> (r: Option<HostPage>)
        requires
            old(self).inv(),
            guest >= host_addr as int % old(self)@.host_page as int,
        ensures
            final(self).inv(),
            ({
                let (after, take) = old(self)@.deflate(host_addr as int);
                let b = reclaim::page_base(old(self)@.host_page, host_addr as int);
                &&& final(self)@ == after
                &&& r == if take {
                    Some((b as usize, (guest - (host_addr - b)) as u64))
                } else {
                    None
                }
            }),
    {
        proof {
            reclaim::lemma_page(self.host_page, host_addr as int);
        }
        let ghost v = self@;
        let base: usize = host_addr - host_addr % self.host_page;
        let sub: u64 = ((host_addr - base) / GUEST_PAGE) as u64;
        let entry: Option<u64> = match ordered::get(&self.mask, base as u64) {
            Some(m) => Some(*m),
            None => None,
        };
        if let Some(m) = entry {
            let now: u64 = m & !(1u64 << sub);
            if now == 0 {
                ordered::remove(&mut self.mask, base as u64);
            } else {
                ordered::insert(&mut self.mask, base as u64, now);
            }
            proof {
                let full = self.full_mask;
                assert(v.mask.contains_key(base as u64));
                assert(m & full == m ==> (m & !(1u64 << sub)) & full == m & !(1u64 << sub))
                    by (bit_vector);
            }
        }
        let take: bool = ordered::set_remove(&mut self.ballooned, base as u64);
        proof {
            lemma_kept(v, self@, base as u64);
        }
        if take {
            Some((base, guest - (host_addr - base) as u64))
        } else {
            None
        }
    }

    /// Forgets everything: the guest's balloon starts over empty.
    pub fn clear(&mut self)
        requires
            old(self).inv(),
        ensures
            final(self).inv(),
            final(self)@ == (InflatedView {
                host_page: old(self)@.host_page,
                mask: Map::empty(),
                ballooned: Set::empty(),
            }),
    {
        self.mask.clear();
        self.ballooned.clear();
    }
}

/// A change to one host page keeps the invariant of the others.
proof fn lemma_kept(v: InflatedView, after: InflatedView, base: u64)
    requires
        v.wf(),
        after.host_page == v.host_page,
        forall|b: u64|
            b != base ==> #[trigger] after.mask.contains_key(b) == v.mask.contains_key(b),
        forall|b: u64|
            b != base && #[trigger] after.mask.contains_key(b) ==> after.mask[b] == v.mask[b],
        forall|b: u64| b != base ==> #[trigger] after.ballooned.contains(b) == v.ballooned.contains(b),
        after.mask.contains_key(base) ==> after.mask[base] & v.full() == after.mask[base],
        after.ballooned.contains(base) ==> after.mask.contains_key(base) && after.mask[base]
            == v.full(),
    ensures
        after.wf(),
{
    assert forall|b: u64| #[trigger] after.mask.contains_key(b) implies after.mask[b] & after.full()
        == after.mask[b] by {
        if b != base {
            assert(v.mask.contains_key(b));
        }
    }
    assert forall|b: u64| #[trigger] after.ballooned.contains(b) implies after.mask.contains_key(b)
        && after.mask[b] == after.full() by {
        if b != base {
            assert(v.ballooned.contains(b));
            assert(v.mask.contains_key(b));
        }
    }
}

/// Setting a low bit of a full mask changes nothing.
proof fn lemma_full_stays(mask: u64, k: u64, n: u64)
    requires
        k < n <= 64,
    ensures
        mask == reclaim::low_mask(n) ==> mask | (1u64 << k) == mask,
{
    if mask == reclaim::low_mask(n) {
        assert(mask & mask == mask) by (bit_vector);
        reclaim::lemma_covers(mask, n);
        assert(reclaim::has(mask, k));
        assert((mask >> k) & 1 == 1 ==> mask | (1u64 << k) == mask) by (bit_vector)
            requires
                k < 64,
        ;
    }
}

/// A host page that was given back is in the balloon whole: no guest page that the guest still
/// uses goes back with it.
pub proof fn law_only_whole_pages_go_back(v: InflatedView, b: u64, p: int)
    requires
        v.wf(),
        v.ballooned.contains(b),
        b % (v.host_page as u64) == 0,
        b <= p < b + v.host_page,
        b + v.host_page <= usize::MAX,
    ensures
        v.holds(p),
{
    let n = (v.host_page / 4096) as u64;
    let mask = v.mask[b];
    reclaim::lemma_in_page(v.host_page, b as int, p);
    reclaim::lemma_page(v.host_page, p);
    reclaim::lemma_covers(mask, n);
    assert(mask & mask == mask) by (bit_vector);
    assert(reclaim::has(mask, reclaim::page_sub(v.host_page, p) as u64));
}

/// A page that was put into the balloon is in it.
pub proof fn law_inflated_page_is_held(v: InflatedView, p: int)
    requires
        v.wf(),
        0 <= p <= usize::MAX,
    ensures
        v.inflate(p).0.holds(p),
{
    reclaim::lemma_page(v.host_page, p);
    let b = reclaim::page_base(v.host_page, p) as u64;
    let k = reclaim::page_sub(v.host_page, p) as u64;
    let was = if v.mask.contains_key(b) {
        v.mask[b]
    } else {
        0
    };
    reclaim::lemma_set_bit(was, k, k);
}

/// A page that was taken out of the balloon is not in it, and its host page is the guest's again.
pub proof fn law_deflated_page_is_free(v: InflatedView, p: int)
    requires
        v.wf(),
        0 <= p <= usize::MAX,
    ensures
        !v.deflate(p).0.holds(p),
        !v.deflate(p).0.ballooned.contains(reclaim::page_base(v.host_page, p) as u64),
{
    reclaim::lemma_page(v.host_page, p);
    let b = reclaim::page_base(v.host_page, p) as u64;
    let k = reclaim::page_sub(v.host_page, p) as u64;
    if v.mask.contains_key(b) {
        reclaim::lemma_clear_bit(v.mask[b], k, k);
    }
}

impl InflatedView {
    /// A balloon with nothing in it.
    pub open spec fn empty(host_page: usize) -> Self {
        InflatedView { host_page, mask: Map::empty(), ballooned: Set::empty() }
    }

    /// After the guest pages at these host addresses were put in, one behind the other.
    pub open spec fn inflate_all(self, ps: Seq<int>) -> Self
        decreases ps.len(),
    {
        if ps.len() == 0 {
            self
        } else {
            self.inflate_all(ps.drop_last()).inflate(ps.last()).0
        }
    }

    /// How often the host page at `b` was given back on the way.
    pub open spec fn releases(self, ps: Seq<int>, b: int) -> nat
        decreases ps.len(),
    {
        if ps.len() == 0 {
            0
        } else {
            let before = self.inflate_all(ps.drop_last());
            self.releases(ps.drop_last(), b) + (if before.inflate(ps.last()).1
                && reclaim::page_base(self.host_page, ps.last()) == b {
                1nat
            } else {
                0
            })
        }
    }

    /// How often any host page was given back on the way.
    pub open spec fn all_releases(self, ps: Seq<int>) -> nat
        decreases ps.len(),
    {
        if ps.len() == 0 {
            0
        } else {
            let before = self.inflate_all(ps.drop_last());
            self.all_releases(ps.drop_last()) + (if before.inflate(ps.last()).1 {
                1nat
            } else {
                0
            })
        }
    }

    /// Every host page that is in the balloon whole was given back.
    spec fn settled(self) -> bool {
        forall|b: u64| #[trigger]
            self.ballooned.contains(b) <==> self.mask.contains_key(b) && self.mask[b] == self.full()
    }
}

/// The guest page at `p` is among those put in.
pub open spec fn put_in(ps: Seq<int>, p: int) -> bool {
    exists|i: int| 0 <= i < ps.len() && p <= #[trigger] ps[i] < p + 4096
}

/// Every guest page of the host page at `b` is among those put in.
pub open spec fn all_in(host_page: usize, ps: Seq<int>, b: int) -> bool {
    forall|p: int| b <= p < b + host_page && p % 4096 == 0 ==> #[trigger] put_in(ps, p)
}

/// Over all the pages that the guest puts into an empty balloon, in whatever order and however
/// often: a host page goes back once if every one of its guest pages is among them, and not at all
/// otherwise.
pub proof fn law_whole_pages_go_back_once(host_page: usize, ps: Seq<int>, b: int)
    requires
        reclaim::valid_host_page(host_page),
        forall|i: int| 0 <= i < ps.len() ==> 0 <= #[trigger] ps[i] <= usize::MAX,
        0 <= b <= usize::MAX,
        b % (host_page as int) == 0,
    ensures
        InflatedView::empty(host_page).releases(ps, b) == if all_in(host_page, ps, b) {
            1nat
        } else {
            0
        },
        InflatedView::empty(host_page).inflate_all(ps).ballooned.contains(b as u64) == all_in(
            host_page,
            ps,
            b,
        ),
{
    let v = InflatedView::empty(host_page).inflate_all(ps);
    lemma_inflate_all(host_page, ps, b);
    reclaim::lemma_top(host_page, b as u64);
    lemma_full_means_held(v, b);
    if all_in(host_page, ps, b) {
        assert forall|p: int| b <= p < b + host_page && p % 4096 == 0 implies #[trigger] v.holds(
            p,
        ) by {
            assert(put_in(ps, p));
        }
    }
    if forall|p: int| b <= p < b + host_page && p % 4096 == 0 ==> #[trigger] v.holds(p) {
        assert forall|p: int| b <= p < b + host_page && p % 4096 == 0 implies #[trigger] put_in(
            ps,
            p,
        ) by {
            assert(v.holds(p));
        }
    }
}

/// A host page is in the balloon whole when every guest page of it is.
proof fn lemma_full_means_held(v: InflatedView, b: int)
    requires
        v.wf(),
        0 <= b,
        b + v.host_page - 1 <= usize::MAX,
        b % (v.host_page as int) == 0,
    ensures
        (v.mask.contains_key(b as u64) && v.mask[b as u64] == v.full()) <==> forall|p: int|
            b <= p < b + v.host_page && p % 4096 == 0 ==> #[trigger] v.holds(p),
{
    let hp = v.host_page;
    let n = (hp / 4096) as u64;
    let mask = v.mask[b as u64];
    reclaim::lemma_covers(mask, n);
    if v.mask.contains_key(b as u64) && mask == v.full() {
        assert(mask & mask == mask) by (bit_vector);
        assert forall|p: int| b <= p < b + hp && p % 4096 == 0 implies #[trigger] v.holds(p) by {
            reclaim::lemma_in_page(hp, b, p);
            reclaim::lemma_page(hp, p);
            assert(reclaim::has(mask, reclaim::page_sub(hp, p) as u64));
        }
    }
    if forall|p: int| b <= p < b + hp && p % 4096 == 0 ==> #[trigger] v.holds(p) {
        lemma_held_is_full(v, b);
    }
}

proof fn lemma_held_is_full(v: InflatedView, b: int)
    requires
        v.wf(),
        0 <= b,
        b + v.host_page - 1 <= usize::MAX,
        b % (v.host_page as int) == 0,
        forall|p: int| b <= p < b + v.host_page && p % 4096 == 0 ==> #[trigger] v.holds(p),
    ensures
        v.mask.contains_key(b as u64) && v.mask[b as u64] == v.full(),
{
    let hp = v.host_page;
    let n = (hp / 4096) as u64;
    let mask = v.mask[b as u64];
    reclaim::lemma_covers(mask, n);
    reclaim::lemma_in_page(hp, b, b);
    reclaim::lemma_page(hp, b);
    assert(v.holds(b));
    assert forall|k: u64| k < n implies #[trigger] reclaim::has(mask, k) by {
        let p = b + 4096 * k;
        reclaim::lemma_in_page(hp, b, p);
        assert(v.holds(p));
    }
}

/// One guest page more.
proof fn lemma_inflate(v: InflatedView, p: int)
    requires
        v.wf(),
        v.settled(),
        0 <= p <= usize::MAX,
    ensures
        v.inflate(p).0.wf(),
        v.inflate(p).0.settled(),
        v.inflate(p).0.host_page == v.host_page,
        forall|q: int|
            0 <= q <= usize::MAX && q % 4096 == 0 ==> #[trigger] v.inflate(p).0.holds(q) == (
            v.holds(q) || q <= p < q + 4096),
{
    let hp = v.host_page;
    let n = (hp / 4096) as u64;
    let b = reclaim::page_base(hp, p) as u64;
    let k = reclaim::page_sub(hp, p) as u64;
    let after = v.inflate(p).0;
    let was = if v.mask.contains_key(b) {
        v.mask[b]
    } else {
        0
    };
    reclaim::lemma_page(hp, p);
    let m = v.full();
    assert(0u64 & m == 0u64) by (bit_vector);
    reclaim::lemma_stays_low(was, k, n);
    lemma_full_stays(was, k, n);
    lemma_kept(v, after, b);
    assert forall|c: u64| #[trigger] after.ballooned.contains(c) <==> after.mask.contains_key(c)
        && after.mask[c] == after.full() by {
        assert(v.ballooned.contains(c) <==> v.mask.contains_key(c) && v.mask[c] == v.full());
    }
    assert forall|q: int| 0 <= q <= usize::MAX && q % 4096 == 0 implies #[trigger] after.holds(q)
        == (v.holds(q) || q <= p < q + 4096) by {
        reclaim::lemma_page(hp, q);
        let j = reclaim::page_sub(hp, q) as u64;
        if reclaim::page_base(hp, q) == reclaim::page_base(hp, p) {
            reclaim::lemma_set_bit(was, k, j);
            assert((0u64 >> j) & 1 == 0) by (bit_vector)
                requires
                    j < 64,
            ;
        } else if q <= p < q + 4096 {
            reclaim::lemma_in_page(hp, reclaim::page_base(hp, q), p);
        }
    }
}

proof fn lemma_inflate_all(host_page: usize, ps: Seq<int>, b: int)
    requires
        reclaim::valid_host_page(host_page),
        forall|i: int| 0 <= i < ps.len() ==> 0 <= #[trigger] ps[i] <= usize::MAX,
        0 <= b <= usize::MAX,
    ensures
        ({
            let start = InflatedView::empty(host_page);
            let v = start.inflate_all(ps);
            &&& v.wf()
            &&& v.settled()
            &&& v.host_page == host_page
            &&& forall|q: int|
                0 <= q <= usize::MAX && q % 4096 == 0 ==> #[trigger] v.holds(q) == put_in(ps, q)
            &&& start.releases(ps, b) == if v.ballooned.contains(b as u64) {
                1nat
            } else {
                0
            }
        }),
    decreases ps.len(),
{
    let start = InflatedView::empty(host_page);
    if ps.len() > 0 {
        let short = ps.drop_last();
        let p = ps[ps.len() - 1];
        assert forall|i: int| 0 <= i < short.len() implies 0 <= #[trigger] short[i] <= usize::MAX by {
            assert(short[i] == ps[i]);
        }
        lemma_inflate_all(host_page, short, b);
        let v = start.inflate_all(short);
        lemma_inflate(v, p);
        reclaim::lemma_page(host_page, p);
        assert forall|q: int| 0 <= q <= usize::MAX && q % 4096 == 0 implies #[trigger] v.inflate(
            p,
        ).0.holds(q) == put_in(ps, q) by {
            assert(v.holds(q) == put_in(short, q));
            if put_in(short, q) {
                let i = choose|i: int| 0 <= i < short.len() && q <= #[trigger] short[i] < q + 4096;
                assert(q <= ps[i] < q + 4096);
            }
            if put_in(ps, q) {
                let i = choose|i: int| 0 <= i < ps.len() && q <= #[trigger] ps[i] < q + 4096;
                if i < short.len() {
                    assert(q <= short[i] < q + 4096);
                }
            }
        }
    }
}

} // verus!
