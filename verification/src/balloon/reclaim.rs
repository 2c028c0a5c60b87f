//! Which host pages can be given back: those whose every guest page was reported free.
//!
//! A guest reports free memory in pages of four KiB. The host gives memory back in its own pages,
//! which may be larger. A host page is given back only when all of it is free, so that no live
//! guest page ever goes with it.
use crate::ordered;
use std::collections::BTreeMap;
use vstd::prelude::*;

verus! {

/// The balloon's unit, whatever the guest's own page size is.
pub const GUEST_PAGE: usize = 4096;

/// A stretch of memory: its host address, its guest-physical address and its length.
pub type Run = (usize, u64, usize);

/// A host page size: a power of two that holds between one and sixty-four guest pages.
pub open spec fn valid_host_page(n: usize) -> bool {
    n == 0x1000 || n == 0x2000 || n == 0x4000 || n == 0x8000 || n == 0x1_0000 || n == 0x2_0000 || n
        == 0x4_0000
}

/// Bit `k` of a mask.
pub open spec fn has(mask: u64, k: u64) -> bool {
    (mask >> k) & 1 == 1
}

/// The mask whose `n` lowest bits are set.
pub open spec fn low_mask(n: u64) -> u64 {
    if n >= 64 {
        u64::MAX
    } else {
        ((1u64 << n) - 1) as u64
    }
}

/// The start of the host page that holds address `p`.
pub open spec fn page_base(host_page: usize, p: int) -> int {
    p - p % (host_page as int)
}

/// Which of its host page's guest pages address `p` lies in.
pub open spec fn page_sub(host_page: usize, p: int) -> int {
    (p - page_base(host_page, p)) / 4096
}

/// The first guest page that starts at or after `p`.
pub open spec fn round_up(p: int) -> int {
    (p + 4095) / 4096 * 4096
}

/// The end of the last guest page that ends at or before `p`.
pub open spec fn round_down(p: int) -> int {
    p / 4096 * 4096
}

/// The guest page at host address `p` lies whole in the run.
pub open spec fn has_page(r: Run, p: int) -> bool {
    &&& p % 4096 == 0
    &&& r.0 <= p
    &&& p + 4096 <= r.0 + r.2
}

/// A guest page of the host page at `b` lies whole in the run.
pub open spec fn touches(host_page: usize, r: Run, b: int) -> bool {
    exists|p: int| #[trigger] has_page(r, p) && page_base(host_page, p) == b
}

/// The run does not reach over the top of either address space, as far as it has whole guest
/// pages, and the host page that it starts in does not begin below the guest's addresses.
pub open spec fn fits(host_page: usize, r: Run) -> bool {
    let start = round_up(r.0 as int);
    let end = round_down(r.0 + r.2);
    r.2 >= GUEST_PAGE ==> {
        &&& r.0 + r.2 <= usize::MAX
        &&& start < end ==> {
            &&& r.1 + (end - GUEST_PAGE - r.0) <= u64::MAX
            &&& r.1 + page_base(host_page, start) >= r.0
        }
    }
}

/// The guest page at host address `p` lies whole in one of the runs.
pub open spec fn reported(runs: Seq<Run>, p: int) -> bool {
    exists|i: int| 0 <= i < runs.len() && has_page(#[trigger] runs[i], p)
}

/// Every guest page of the host page at `b` lies whole in one of the runs.
pub open spec fn page_reported(host_page: usize, runs: Seq<Run>, b: int) -> bool {
    &&& b >= 0
    &&& b % (host_page as int) == 0
    &&& forall|p: int| b <= p < b + host_page && p % 4096 == 0 ==> #[trigger] reported(runs, p)
}

/// One of the runs has a guest page of the host page at `b`.
pub open spec fn touched(host_page: usize, runs: Seq<Run>, b: int) -> bool {
    exists|i: int| 0 <= i < runs.len() && touches(host_page, #[trigger] runs[i], b)
}

/// Where the first of the runs that has a guest page of the host page at `b` puts that host page
/// in the guest.
pub open spec fn place_of(host_page: usize, runs: Seq<Run>, b: int) -> int
    decreases runs.len(),
{
    if runs.len() == 0 {
        0
    } else if touched(host_page, runs.drop_last(), b) {
        place_of(host_page, runs.drop_last(), b)
    } else {
        runs.last().1 + (b - runs.last().0)
    }
}

/// Exactly the host pages that the runs call free all over, each once, where the runs put it.
pub open spec fn free_pages(host_page: usize, runs: Seq<Run>, pages: Seq<Run>) -> bool {
    &&& forall|j: int|
        0 <= j < pages.len() ==> {
            &&& page_reported(host_page, runs, (#[trigger] pages[j]).0 as int)
            &&& pages[j].1 == place_of(host_page, runs, pages[j].0 as int)
            &&& pages[j].2 == host_page
        }
    &&& forall|b: int| #[trigger]
        page_reported(host_page, runs, b) ==> exists|k: int|
            0 <= k < pages.len() && (#[trigger] pages[k]).0 == b
    &&& forall|j: int, k: int|
        0 <= j < k < pages.len() ==> (#[trigger] pages[j]).0 != (#[trigger] pages[k]).0
}

pub proof fn lemma_page(host_page: usize, p: int)
    requires
        valid_host_page(host_page),
        p >= 0,
    ensures
        0 <= page_base(host_page, p) <= p < page_base(host_page, p) + host_page,
        page_base(host_page, p) % (host_page as int) == 0,
        page_base(host_page, p) % 4096 == 0,
        0 <= page_sub(host_page, p) < host_page / 4096,
        p % 4096 == 0 ==> p == page_base(host_page, p) + 4096 * page_sub(host_page, p),
{
}

/// Every address of a host page has its base.
pub proof fn lemma_in_page(host_page: usize, b: int, p: int)
    requires
        valid_host_page(host_page),
        b >= 0,
        b % (host_page as int) == 0,
        b <= p < b + host_page,
    ensures
        page_base(host_page, p) == b,
        page_sub(host_page, p) == (p - b) / 4096,
{
    let d = host_page as int;
    vstd::arithmetic::div_mod::lemma_fundamental_div_mod(b, d);
    vstd::arithmetic::mul::lemma_mul_is_commutative(d, b / d);
    vstd::arithmetic::div_mod::lemma_fundamental_div_mod_converse(p, d, b / d, p - b);
}

/// Setting a bit sets that bit and no other.
pub proof fn lemma_set_bit(mask: u64, k: u64, j: u64)
    requires
        k < 64,
        j < 64,
    ensures
        has(mask | (1u64 << k), j) == (j == k || has(mask, j)),
{
    assert(((mask | (1u64 << k)) >> j) & 1 == 1 <==> (j == k || (mask >> j) & 1 == 1)) by (bit_vector)
        requires
            k < 64,
            j < 64,
    ;
}

/// Clearing a bit clears that bit and no other.
pub proof fn lemma_clear_bit(mask: u64, k: u64, j: u64)
    requires
        k < 64,
        j < 64,
    ensures
        has(mask & !(1u64 << k), j) == (j != k && has(mask, j)),
{
    assert(((mask & !(1u64 << k)) >> j) & 1 == 1 <==> (j != k && (mask >> j) & 1 == 1))
        by (bit_vector)
        requires
            k < 64,
            j < 64,
    ;
}

proof fn lemma_low_mask_step(n: u64)
    requires
        n < 64,
    ensures
        low_mask((n + 1) as u64) == low_mask(n) | (1u64 << n),
{
    if n < 63 {
        let m = (n + 1) as u64;
        assert(((1u64 << m) - 1) as u64 == ((((1u64 << n) - 1) as u64) | (1u64 << n))) by (bit_vector)
            requires
                n < 63,
                m == n + 1,
        ;
    } else {
        assert(u64::MAX == ((((1u64 << 63u64) - 1) as u64) | (1u64 << 63u64))) by (bit_vector);
    }
}

/// A mask holds the `n` lowest bits exactly when it has each of them.
pub proof fn lemma_covers(mask: u64, n: u64)
    requires
        n <= 64,
    ensures
        mask & low_mask(n) == low_mask(n) <==> forall|k: u64| k < n ==> #[trigger] has(mask, k),
    decreases n,
{
    if n == 0 {
        assert(mask & (((1u64 << 0u64) - 1) as u64) == ((1u64 << 0u64) - 1) as u64) by (bit_vector);
    } else {
        let m = (n - 1) as u64;
        lemma_covers(mask, m);
        lemma_low_mask_step(m);
        let x = low_mask(m);
        assert(mask & (x | (1u64 << m)) == (x | (1u64 << m)) <==> (mask & x == x && (mask >> m) & 1
            == 1)) by (bit_vector)
            requires
                m < 64,
        ;
        if mask & low_mask(n) == low_mask(n) {
            assert forall|k: u64| k < n implies #[trigger] has(mask, k) by {
                if k < m {
                }
            }
        } else if forall|k: u64| k < n ==> #[trigger] has(mask, k) {
            assert(has(mask, m));
        }
    }
}

/// A low bit is one of the low mask's, so setting it stays inside.
pub proof fn lemma_stays_low(mask: u64, k: u64, n: u64)
    requires
        k < n <= 64,
        mask & low_mask(n) == mask,
    ensures
        (mask | (1u64 << k)) & low_mask(n) == mask | (1u64 << k),
{
    if n >= 64 {
        assert((mask | (1u64 << k)) & u64::MAX == mask | (1u64 << k)) by (bit_vector);
    } else {
        assert((mask | (1u64 << k)) & (((1u64 << n) - 1) as u64) == mask | (1u64 << k)) by (bit_vector)
            requires
                k < n < 64,
                mask & (((1u64 << n) - 1) as u64) == mask,
        ;
    }
}

/// The mask of a host page of `n` guest pages that are all free.
pub fn full_mask(host_page: usize) -> (r: u64)
    requires
        valid_host_page(host_page),
    ensures
        r == low_mask((host_page / 4096) as u64),
{
    let sub: u64 = (host_page / GUEST_PAGE) as u64;
    if sub >= 64 {
        u64::MAX
    } else {
        assert((1u64 << sub) >= 1) by (bit_vector)
            requires
                sub < 64,
        ;
        (1u64 << sub) - 1
    }
}

/// Collects what a guest reports free, and gives out the host pages that are free all over.
pub struct ReclaimCoalescer {
    host_page: usize,
    full_mask: u64,
    /// The host pages of which something is free, in the order they came up.
    bases: Vec<usize>,
    /// By host page: a mask of its free guest pages, and its guest-physical address.
    partial: BTreeMap<u64, (u64, u64)>,
}

pub struct CoalescerView {
    pub host_page: usize,
    /// By host page: a mask of its free guest pages, and its guest-physical address.
    pub pages: Map<u64, (u64, u64)>,
}

impl CoalescerView {
    /// The guest page at host address `p` was reported free.
    pub open spec fn free(self, p: int) -> bool {
        let b = page_base(self.host_page, p) as u64;
        self.pages.contains_key(b) && has(self.pages[b].0, page_sub(self.host_page, p) as u64)
    }

    /// Every guest page of the host page at `b` was reported free.
    pub open spec fn full(self, b: u64) -> bool {
        self.pages.contains_key(b) && self.pages[b].0 == low_mask((self.host_page / 4096) as u64)
    }

    pub open spec fn wf(self) -> bool {
        &&& valid_host_page(self.host_page)
        &&& forall|b: u64| #[trigger]
            self.pages.contains_key(b) ==> {
                &&& b <= usize::MAX
                &&& b % (self.host_page as u64) == 0
                &&& self.pages[b].0 & low_mask((self.host_page / 4096) as u64) == self.pages[b].0
            }
    }

    /// The run's whole guest pages came to be free, and nothing else. Only a host page that the run
    /// has a guest page of comes up, and it keeps the guest-physical address under which it came up
    /// first.
    pub open spec fn added(self, after: Self, run: Run) -> bool {
        &&& after.host_page == self.host_page
        &&& forall|p: int|
            0 <= p <= usize::MAX && p % 4096 == 0 ==> #[trigger] after.free(p) == (self.free(p)
                || has_page(run, p))
        &&& forall|b: u64| #[trigger]
            after.pages.contains_key(b) <==> self.pages.contains_key(b) || touches(
                self.host_page,
                run,
                b as int,
            )
        &&& forall|b: u64| #[trigger]
            after.pages.contains_key(b) ==> after.pages[b].1 == (if self.pages.contains_key(b) {
                self.pages[b].1 as int
            } else {
                run.1 + (b - run.0)
            })
    }

    /// What the collector holds after these runs and no others.
    pub open spec fn collected(self, runs: Seq<Run>) -> bool {
        &&& forall|p: int|
            0 <= p <= usize::MAX && p % 4096 == 0 ==> #[trigger] self.free(p) == reported(runs, p)
        &&& forall|b: u64| #[trigger]
            self.pages.contains_key(b) <==> touched(self.host_page, runs, b as int)
        &&& forall|b: u64| #[trigger]
            self.pages.contains_key(b) ==> self.pages[b].1 == place_of(
                self.host_page,
                runs,
                b as int,
            )
    }
}

impl View for ReclaimCoalescer {
    type V = CoalescerView;

    closed spec fn view(&self) -> CoalescerView {
        CoalescerView { host_page: self.host_page, pages: self.partial@ }
    }
}

/// A host page that is full has every one of its guest pages free, and the other way round.
pub proof fn law_full_means_every_page(v: CoalescerView, b: u64)
    requires
        v.wf(),
        b % (v.host_page as u64) == 0,
        b <= usize::MAX,
    ensures
        v.full(b) <==> forall|p: int|
            b <= p < b + v.host_page && p % 4096 == 0 ==> #[trigger] v.free(p),
{
    let hp = v.host_page;
    let n = (hp / 4096) as u64;
    let mask = v.pages[b].0;
    lemma_covers(mask, n);
    if v.full(b) {
        assert(mask & mask == mask) by (bit_vector);
        assert forall|p: int| b <= p < b + hp && p % 4096 == 0 implies #[trigger] v.free(p) by {
            lemma_in_page(hp, b as int, p);
            lemma_page(hp, p);
            assert(has(mask, page_sub(hp, p) as u64));
        }
    }
    if forall|p: int| b <= p < b + hp && p % 4096 == 0 ==> #[trigger] v.free(p) {
        lemma_in_page(hp, b as int, b as int);
        lemma_page(hp, b as int);
        assert(v.free(b as int));
        assert forall|k: u64| k < n implies #[trigger] has(mask, k) by {
            let p = b + 4096 * k;
            lemma_in_page(hp, b as int, p);
            assert(v.free(p));
        }
    }
}

impl ReclaimCoalescer {
    /// No state outside the maps differs from what it was made with.
    #[verifier::opaque]
    pub closed spec fn inv(self) -> bool {
        &&& self@.wf()
        &&& self.full_mask == low_mask((self.host_page / 4096) as u64)
        &&& self.bases@.no_duplicates()
        &&& forall|b: u64| #[trigger]
            self.partial@.contains_key(b) <==> exists|i: int|
                0 <= i < self.bases@.len() && #[trigger] self.bases@[i] == b
    }

    /// What the invariant says of the contents.
    pub proof fn lemma_wf(self)
        requires
            self.inv(),
        ensures
            self@.wf(),
    {
        reveal(ReclaimCoalescer::inv);
    }

    /// A run's guest page at `p` lies in a host page whose start has an address in the guest.
    proof fn lemma_place(self, run: Run, p: int)
        requires
            self.inv(),
            run.2 >= GUEST_PAGE,
            fits(self.host_page, run),
            p % 4096 == 0,
            round_up(run.0 as int) <= p < round_down(run.0 + run.2),
        ensures
            self.host_page > 0,
            has_page(run, p),
            0 <= page_base(self.host_page, p) <= p,
            p + GUEST_PAGE <= usize::MAX,
            run.1 + (p - run.0) <= u64::MAX,
            0 <= run.1 + (page_base(self.host_page, p) - run.0),
    {
        let hp = self.host_page;
        let start = round_up(run.0 as int);
        self.lemma_wf();
        lemma_page(hp, p);
        lemma_base_grows(hp, start, p);
        lemma_run_pages(run.0 as int, run.2 as int, p);
    }

    pub fn new(host_page: usize) -> (r: Self)
        requires
            valid_host_page(host_page),
        ensures
            r.inv(),
            r@ == (CoalescerView { host_page, pages: Map::empty() }),
    {
        proof {
            reveal(ReclaimCoalescer::inv);
        }
        ReclaimCoalescer {
            host_page,
            full_mask: full_mask(host_page),
            bases: Vec::new(),
            partial: BTreeMap::new(),
        }
    }

    /// Marks the guest page at `p` free.
    fn mark(&mut self, p: usize, gpa_base: u64)
        requires
            old(self).inv(),
            p % 4096 == 0,
        ensures
            final(self).inv(),
            final(self)@.host_page == old(self)@.host_page,
            ({
                let b = page_base(old(self)@.host_page, p as int) as u64;
                let k = page_sub(old(self)@.host_page, p as int) as u64;
                let was = if old(self)@.pages.contains_key(b) {
                    old(self)@.pages[b]
                } else {
                    (0u64, gpa_base)
                };
                final(self)@.pages == old(self)@.pages.insert(b, (was.0 | (1u64 << k), was.1))
            }),
    {
        proof {
            reveal(ReclaimCoalescer::inv);
            lemma_page(self.host_page, p as int);
        }
        let base: usize = p - p % self.host_page;
        let sub: u64 = ((p - base) / GUEST_PAGE) as u64;
        let ghost n = (self.host_page / 4096) as u64;
        let ghost before = *self;
        let (mask, gpa) = match ordered::get(&self.partial, base as u64) {
            Some(e) => *e,
            None => {
                self.bases.push(base);
                (0, gpa_base)
            },
        };
        proof {
            assert(0u64 & low_mask(n) == 0u64) by {
                let m = low_mask(n);
                assert(0u64 & m == 0u64) by (bit_vector);
            }
            if before.partial@.contains_key(base as u64) {
                assert(before@.pages.contains_key(base as u64));
            }
            lemma_stays_low(mask, sub, n);
        }
        ordered::insert(&mut self.partial, base as u64, (mask | (1u64 << sub), gpa));
        proof {
            if !before.partial@.contains_key(base as u64) {
                assert forall|i: int| 0 <= i < before.bases@.len() implies before.bases@[i] != base by {
                }
                assert(self.bases@.no_duplicates());
                assert(self.bases@[before.bases@.len() as int] == base);
            }
            assert forall|b: u64| #[trigger]
                self.partial@.contains_key(b) <==> exists|i: int|
                    0 <= i < self.bases@.len() && #[trigger] self.bases@[i] == b by {
                if before.partial@.contains_key(b) {
                    let i = choose|i: int| 0 <= i < before.bases@.len() && before.bases@[i] == b;
                    assert(self.bases@[i] == b);
                }
            }
            assert forall|b: u64| #[trigger] self@.pages.contains_key(b) implies {
                &&& b <= usize::MAX
                &&& b % (self.host_page as u64) == 0
                &&& self@.pages[b].0 & low_mask(n) == self@.pages[b].0
            } by {
                if b != base {
                    assert(before@.pages.contains_key(b));
                }
            }
        }
    }

    /// Takes a run that the guest reported free. Its ends are rounded inward to whole guest pages:
    /// a page that is free only in part does not count.
    pub fn add(&mut self, addr: usize, gpa: u64, len: usize)
        requires
            old(self).inv(),
            fits(old(self)@.host_page, (addr, gpa, len)),
        ensures
            final(self).inv(),
            old(self)@.added(final(self)@, (addr, gpa, len)),
    {
        let ghost hp = self.host_page;
        let ghost run: Run = (addr, gpa, len);
        let ghost v = self@;
        if len < GUEST_PAGE {
            return;
        }
        let start: usize = (addr + (GUEST_PAGE - 1)) / GUEST_PAGE * GUEST_PAGE;
        let end: usize = (addr + len) / GUEST_PAGE * GUEST_PAGE;
        let mut p: usize = start;
        proof {
            lemma_none_added(v, run);
        }
        while p < end
            invariant
                self.inv(),
                run == (addr, gpa, len),
                hp == self@.host_page,
                len >= GUEST_PAGE,
                fits(hp, run),
                end == round_down(addr + len),
                round_up(addr as int) <= p,
                p % 4096 == 0,
                v.added_below(self@, run, p as int),
            decreases end - p,
        {
            let ghost before = self@;
            proof {
                self.lemma_wf();
                self.lemma_place(run, p as int);
            }
            let base: usize = p - p % self.host_page;
            let gpa_base: u64 = gpa + (p - addr) as u64 - (p - base) as u64;
            self.mark(p, gpa_base);
            proof {
                lemma_one_added(v, before, self@, run, p as int, gpa_base);
            }
            p = p + GUEST_PAGE;
        }
        proof {
            lemma_all_added(v, self@, run, p as int);
        }
    }

    /// Gives out the host pages that are free all over, and forgets them. What is free only in
    /// part stays.
    pub fn take_full_pages(&mut self) -> (out: Vec<Run>)
        requires
            old(self).inv(),
        ensures
            final(self).inv(),
            final(self)@.host_page == old(self)@.host_page,
            forall|b: u64| #[trigger]
                final(self)@.pages.contains_key(b) <==> old(self)@.pages.contains_key(b) && !old(
                    self,
                )@.full(b),
            forall|b: u64| #[trigger]
                final(self)@.pages.contains_key(b) ==> final(self)@.pages[b] == old(self)@.pages[b],
            taken(old(self)@, out@),
    {
        proof {
            reveal(ReclaimCoalescer::inv);
        }
        let ghost v = self@;
        let mut out: Vec<Run> = Vec::new();
        let mut left: Vec<usize> = Vec::new();
        let mut i: usize = 0;
        let ghost all = self.bases@;
        while i < self.bases.len()
            invariant
                i <= all.len(),
                all == self.bases@,
                v == old(self)@,
                v.wf(),
                self@.wf(),
                self.host_page == v.host_page,
                self@.host_page == v.host_page,
                self.full_mask == low_mask((v.host_page / 4096) as u64),
                all.no_duplicates(),
                forall|b: u64| #[trigger]
                    v.pages.contains_key(b) <==> exists|j: int|
                        0 <= j < all.len() && #[trigger] all[j] == b,
                forall|b: u64| #[trigger]
                    self.partial@.contains_key(b) ==> v.pages.contains_key(b) && self.partial@[b]
                        == v.pages[b],
                forall|j: int|
                    0 <= j < all.len() ==> self.partial@.contains_key(#[trigger] all[j] as u64)
                        == !(j < i && v.full(all[j] as u64)),
                forall|j: int|
                    0 <= j < left@.len() ==> {
                        &&& all.take(i as int).contains(#[trigger] left@[j])
                        &&& !v.full(left@[j] as u64)
                    },
                forall|j: int|
                    0 <= j < i && !v.full(all[j] as u64) ==> left@.contains(#[trigger] all[j]),
                left@.no_duplicates(),
                forall|j: int|
                    0 <= j < out@.len() ==> {
                        &&& all.take(i as int).contains((#[trigger] out@[j]).0)
                        &&& v.full(out@[j].0 as u64)
                        &&& out@[j].1 == v.pages[out@[j].0 as u64].1
                        &&& out@[j].2 == v.host_page
                    },
                forall|j: int|
                    0 <= j < i && v.full(all[j] as u64) ==> exists|k: int|
                        0 <= k < out@.len() && (#[trigger] out@[k]).0 == #[trigger] all[j],
                forall|j: int, k: int|
                    0 <= j < k < out@.len() ==> (#[trigger] out@[j]).0 != (#[trigger] out@[k]).0,
            decreases all.len() - i,
        {
            let base: usize = self.bases[i];
            let ghost prev = all.take(i as int);
            let ghost next = all.take(i + 1);
            let ghost out0 = out@;
            let ghost left0 = left@;
            assert(v.pages.contains_key(base as u64));
            assert(self.partial@.contains_key(all[i as int] as u64));
            assert forall|x: usize| #[trigger] prev.contains(x) implies next.contains(x) && x
                != base by {
                let j = choose|j: int| 0 <= j < prev.len() && prev[j] == x;
                assert(next[j] == x);
                assert(all[j] == x);
            }
            assert(next[i as int] == base);
            let full: bool = match ordered::get(&self.partial, base as u64) {
                Some(e) => e.0 == self.full_mask,
                None => false,
            };
            if full {
                if let Some(e) = ordered::remove(&mut self.partial, base as u64) {
                    out.push((base, e.1, self.host_page));
                    assert(out@[out0.len() as int].0 == base);
                    assert forall|j: int| 0 <= j < i + 1 && v.full(all[j] as u64) implies exists|
                        k: int,
                    |
                        0 <= k < out@.len() && (#[trigger] out@[k]).0 == #[trigger] all[j] by {
                        if j < i {
                            let k = choose|k: int| 0 <= k < out0.len() && out0[k].0 == all[j];
                            assert(out@[k].0 == all[j]);
                        }
                    }
                }
            } else {
                left.push(base);
                assert(left@[left0.len() as int] == base);
                assert forall|j: int| 0 <= j < i + 1 && !v.full(all[j] as u64) implies left@.contains(
                    #[trigger] all[j],
                ) by {
                    if j < i {
                        let k = choose|k: int| 0 <= k < left0.len() && left0[k] == all[j];
                        assert(left@[k] == all[j]);
                    }
                }
            }
            i = i + 1;
        }
        self.bases = left;
        assert(all.take(all.len() as int) =~= all);
        proof {
            assert forall|b: u64| #[trigger]
                self.partial@.contains_key(b) <==> exists|j: int|
                    0 <= j < self.bases@.len() && #[trigger] self.bases@[j] == b by {
                if self.partial@.contains_key(b) {
                    assert(v.pages.contains_key(b));
                    let j = choose|j: int| 0 <= j < all.len() && all[j] == b;
                    assert(left@.contains(all[j]));
                    let k = choose|k: int| 0 <= k < left@.len() && left@[k] == all[j];
                    assert(self.bases@[k] == b);
                }
                if exists|j: int| 0 <= j < self.bases@.len() && #[trigger] self.bases@[j] == b {
                    let j = choose|j: int| 0 <= j < self.bases@.len() && #[trigger] self.bases@[j] == b;
                    assert(all.contains(left@[j]));
                    let k = choose|k: int| 0 <= k < all.len() && all[k] == left@[j];
                    assert(self.partial@.contains_key(all[k] as u64));
                }
            }
            assert forall|b: u64| #[trigger] v.full(b) implies exists|k: int|
                0 <= k < out@.len() && (#[trigger] out@[k]).0 == b by {
                let j = choose|j: int| 0 <= j < all.len() && all[j] == b;
                assert(v.full(all[j] as u64));
            }
        }
        out
    }
}

/// Exactly the full host pages, each once, with its guest-physical address.
pub open spec fn taken(v: CoalescerView, out: Seq<Run>) -> bool {
    &&& forall|j: int|
        0 <= j < out.len() ==> {
            &&& v.full((#[trigger] out[j]).0 as u64)
            &&& out[j].1 == v.pages[out[j].0 as u64].1
            &&& out[j].2 == v.host_page
        }
    &&& forall|b: u64| #[trigger]
        v.full(b) ==> exists|k: int| 0 <= k < out.len() && (#[trigger] out[k]).0 == b
    &&& forall|j: int, k: int|
        0 <= j < k < out.len() ==> (#[trigger] out[j]).0 != (#[trigger] out[k]).0
}

/// A run more was taken in.
pub proof fn lemma_collected(
    before: CoalescerView,
    after: CoalescerView,
    runs: Seq<Run>,
    run: Run,
)
    requires
        before.collected(runs),
        before.added(after, run),
    ensures
        after.collected(runs.push(run)),
{
    let hp = before.host_page;
    let more = runs.push(run);
    assert(more.drop_last() =~= runs);
    assert forall|p: int| 0 <= p <= usize::MAX && p % 4096 == 0 implies #[trigger] after.free(p)
        == reported(more, p) by {
        assert(before.free(p) == reported(runs, p));
        if reported(runs, p) {
            let i = choose|i: int| 0 <= i < runs.len() && has_page(#[trigger] runs[i], p);
            assert(has_page(more[i], p));
        }
        if has_page(run, p) {
            assert(has_page(more[runs.len() as int], p));
        }
        if reported(more, p) {
            let i = choose|i: int| 0 <= i < more.len() && has_page(#[trigger] more[i], p);
            if i < runs.len() {
                assert(has_page(runs[i], p));
            }
        }
    }
    assert forall|b: u64| #[trigger] after.pages.contains_key(b) <==> touched(hp, more, b as int) by {
        if touched(hp, runs, b as int) {
            let i = choose|i: int| 0 <= i < runs.len() && touches(hp, #[trigger] runs[i], b as int);
            assert(touches(hp, more[i], b as int));
        }
        if touches(hp, run, b as int) {
            assert(touches(hp, more[runs.len() as int], b as int));
        }
        if touched(hp, more, b as int) {
            let i = choose|i: int| 0 <= i < more.len() && touches(hp, #[trigger] more[i], b as int);
            if i < runs.len() {
                assert(touches(hp, runs[i], b as int));
            }
        }
        assert(before.pages.contains_key(b) == touched(hp, runs, b as int));
    }
    assert forall|b: u64| #[trigger] after.pages.contains_key(b) implies after.pages[b].1
        == place_of(hp, more, b as int) by {
        assert(before.pages.contains_key(b) == touched(hp, runs, b as int));
    }
}

/// What is taken out of a collector that holds these runs: exactly the host pages that they call
/// free all over.
pub proof fn lemma_taken(v: CoalescerView, runs: Seq<Run>, out: Seq<Run>)
    requires
        v.wf(),
        v.collected(runs),
        forall|i: int| 0 <= i < runs.len() ==> fits(v.host_page, #[trigger] runs[i]),
        taken(v, out),
    ensures
        free_pages(v.host_page, runs, out),
        forall|j: int|
            0 <= j < out.len() ==> (#[trigger] out[j]).0 + out[j].2 <= usize::MAX,
{
    let hp = v.host_page;
    assert forall|j: int| 0 <= j < out.len() implies {
        &&& page_reported(hp, runs, (#[trigger] out[j]).0 as int)
        &&& out[j].1 == place_of(hp, runs, out[j].0 as int)
        &&& out[j].0 + out[j].2 <= usize::MAX
    } by {
        let b = out[j].0 as u64;
        assert(v.full(b));
        assert(v.pages.contains_key(b));
        law_full_means_every_page(v, b);
        lemma_top(hp, b);
        assert forall|p: int| b <= p < b + hp && p % 4096 == 0 implies #[trigger] reported(
            runs,
            p,
        ) by {
            assert(v.free(p));
        }
        let p = b + hp - 4096;
        assert(reported(runs, p));
        let i = choose|i: int| 0 <= i < runs.len() && has_page(#[trigger] runs[i], p);
        assert(fits(hp, runs[i]));
    }
    assert forall|b: int| #[trigger] page_reported(hp, runs, b) implies exists|k: int|
        0 <= k < out.len() && (#[trigger] out[k]).0 == b by {
        assert(reported(runs, b));
        let i = choose|i: int| 0 <= i < runs.len() && has_page(#[trigger] runs[i], b);
        assert(fits(hp, runs[i]));
        let c = b as u64;
        lemma_top(hp, c);
        assert forall|p: int| c <= p < c + hp && p % 4096 == 0 implies #[trigger] v.free(p) by {
            assert(reported(runs, p));
        }
        law_full_means_every_page(v, c);
        assert(v.full(c));
    }
}

/// The runs were taken in one behind the other, from an empty collector.
pub open spec fn added_in_turn(host_page: usize, views: Seq<CoalescerView>, runs: Seq<Run>) -> bool {
    &&& views.len() == runs.len() + 1
    &&& views[0] == (CoalescerView { host_page, pages: Map::empty() })
    &&& forall|i: int|
        0 <= i < runs.len() ==> views[i].added(views[i + 1], #[trigger] runs[i])
}

/// Whatever runs a guest reports, what is given out is exactly the host pages whose every guest
/// page lies whole in one of them, each once: none with a guest page that is in use, and none that
/// is free all over is missed. Where the runs lie at one distance in both address spaces, so do the
/// host pages.
pub proof fn law_exactly_the_free_pages(
    host_page: usize,
    views: Seq<CoalescerView>,
    runs: Seq<Run>,
    out: Seq<Run>,
    distance: int,
)
    requires
        valid_host_page(host_page),
        added_in_turn(host_page, views, runs),
        forall|i: int| 0 <= i < runs.len() ==> fits(host_page, #[trigger] runs[i]),
        views.last().wf(),
        taken(views.last(), out),
    ensures
        free_pages(host_page, runs, out),
        (forall|i: int| 0 <= i < runs.len() ==> (#[trigger] runs[i]).0 - runs[i].1 == distance)
            ==> forall|j: int|
            0 <= j < out.len() ==> (#[trigger] out[j]).0 - out[j].1 == distance,
{
    lemma_added_in_turn(host_page, views, runs);
    lemma_taken(views.last(), runs, out);
    if forall|i: int| 0 <= i < runs.len() ==> (#[trigger] runs[i]).0 - runs[i].1 == distance {
        assert forall|j: int| 0 <= j < out.len() implies (#[trigger] out[j]).0 - out[j].1
            == distance by {
            let b = out[j].0 as int;
            assert(page_reported(host_page, runs, b));
            lemma_in_page(host_page, b, b);
            lemma_page(host_page, b);
            assert(reported(runs, b));
            let i = choose|i: int| 0 <= i < runs.len() && has_page(#[trigger] runs[i], b);
            assert(touches(host_page, runs[i], b));
            lemma_one_distance(host_page, runs, b, distance);
        }
    }
}

proof fn lemma_added_in_turn(host_page: usize, views: Seq<CoalescerView>, runs: Seq<Run>)
    requires
        added_in_turn(host_page, views, runs),
    ensures
        views.last().collected(runs),
        views.last().host_page == host_page,
    decreases runs.len(),
{
    if runs.len() > 0 {
        let short = runs.drop_last();
        assert forall|i: int| 0 <= i < short.len() implies views.drop_last()[i].added(
            views.drop_last()[i + 1],
            #[trigger] short[i],
        ) by {
            assert(short[i] == runs[i]);
        }
        lemma_added_in_turn(host_page, views.drop_last(), short);
        let last = runs[runs.len() - 1];
        assert(views[runs.len() - 1].added(views[runs.len() - 1 + 1], runs[runs.len() - 1]));
        lemma_collected(views.drop_last().last(), views.last(), short, last);
        assert(short.push(last) =~= runs);
    }
}

proof fn lemma_one_distance(host_page: usize, runs: Seq<Run>, b: int, distance: int)
    requires
        touched(host_page, runs, b),
        forall|i: int| 0 <= i < runs.len() ==> (#[trigger] runs[i]).0 - runs[i].1 == distance,
    ensures
        place_of(host_page, runs, b) == b - distance,
    decreases runs.len(),
{
    let short = runs.drop_last();
    assert(runs[runs.len() - 1].0 - runs[runs.len() - 1].1 == distance);
    if touched(host_page, short, b) {
        assert forall|i: int| 0 <= i < short.len() implies (#[trigger] short[i]).0 - short[i].1
            == distance by {
            assert(short[i] == runs[i]);
        }
        lemma_one_distance(host_page, short, b, distance);
    }
}

/// A host page that begins in the address space ends in it.
pub proof fn lemma_top(host_page: usize, b: u64)
    requires
        valid_host_page(host_page),
        b <= usize::MAX,
        b % (host_page as u64) == 0,
    ensures
        b + host_page - 1 <= usize::MAX,
{
    let top = usize::MAX + 1;
    assert(top == 0x1_0000_0000 || top == 0x1_0000_0000_0000_0000);
    let d = host_page as int;
    assert(top % d == 0);
    assert(b < top);
    if b + d > top {
        vstd::arithmetic::div_mod::lemma_fundamental_div_mod(b as int, d);
        vstd::arithmetic::div_mod::lemma_fundamental_div_mod(top, d);
        let x = b as int / d;
        let y = top / d;
        assert(false) by (nonlinear_arith)
            requires
                b == d * x,
                top == d * y,
                b < top,
                b + d > top,
                d > 0,
        ;
    }
}

/// A guest page of the host page at `b` lies whole in the run, and begins before `p`.
spec fn touched_below(host_page: usize, r: Run, p: int, b: int) -> bool {
    exists|q: int| q < p && #[trigger] has_page(r, q) && page_base(host_page, q) == b
}

impl CoalescerView {
    /// Those of the run's guest pages that begin before `p` came to be free.
    #[verifier::opaque]
    spec fn added_below(self, after: Self, run: Run, p: int) -> bool {
        &&& after.host_page == self.host_page
        &&& forall|q: int|
            0 <= q <= usize::MAX && q % 4096 == 0 ==> #[trigger] after.free(q) == (self.free(q) || (
            has_page(run, q) && q < p))
        &&& forall|b: u64| #[trigger]
            after.pages.contains_key(b) <==> self.pages.contains_key(b) || touched_below(
                self.host_page,
                run,
                p,
                b as int,
            )
        &&& forall|b: u64| #[trigger]
            after.pages.contains_key(b) ==> after.pages[b].1 == (if self.pages.contains_key(b) {
                self.pages[b].1 as int
            } else {
                run.1 + (b - run.0)
            })
    }
}

proof fn lemma_none_added(v: CoalescerView, run: Run)
    ensures
        v.added_below(v, run, round_up(run.0 as int)),
{
    reveal(CoalescerView::added_below);
    let start = round_up(run.0 as int);
    assert forall|q: int| has_page(run, q) implies q >= start by {
        lemma_run_pages(run.0 as int, run.2 as int, q);
    }
}

proof fn lemma_all_added(v: CoalescerView, after: CoalescerView, run: Run, p: int)
    requires
        v.added_below(after, run, p),
        p >= round_down(run.0 + run.2),
    ensures
        v.added(after, run),
{
    reveal(CoalescerView::added_below);
    assert forall|q: int| has_page(run, q) implies q < p by {
        lemma_run_pages(run.0 as int, run.2 as int, q);
    }
    assert forall|b: int|
        #![trigger touches(v.host_page, run, b)]
        #![trigger touched_below(v.host_page, run, p, b)]
        touches(v.host_page, run, b) == touched_below(v.host_page, run, p, b) by {
        if touches(v.host_page, run, b) {
            let q = choose|q: int| #[trigger] has_page(run, q) && page_base(v.host_page, q) == b;
            assert(q < p);
        }
    }
}

proof fn lemma_one_added(
    v: CoalescerView,
    before: CoalescerView,
    after: CoalescerView,
    run: Run,
    p: int,
    gpa_base: u64,
)
    requires
        before.wf(),
        v.added_below(before, run, p),
        has_page(run, p),
        0 <= p <= usize::MAX,
        after.host_page == before.host_page,
        gpa_base == run.1 + (page_base(before.host_page, p) - run.0),
        0 <= page_base(before.host_page, p) <= u64::MAX,
        ({
            let b = page_base(before.host_page, p) as u64;
            let k = page_sub(before.host_page, p) as u64;
            let was = if before.pages.contains_key(b) {
                before.pages[b]
            } else {
                (0u64, gpa_base)
            };
            after.pages == before.pages.insert(b, (was.0 | (1u64 << k), was.1))
        }),
    ensures
        v.added_below(after, run, p + 4096),
{
    lemma_marked(before, after, p, gpa_base);
    lemma_one_free(v, before, after, run, p);
    lemma_one_key(v, before, after, run, p, gpa_base);
    reveal(CoalescerView::added_below);
}

proof fn lemma_one_free(
    v: CoalescerView,
    before: CoalescerView,
    after: CoalescerView,
    run: Run,
    p: int,
)
    requires
        v.added_below(before, run, p),
        has_page(run, p),
        forall|q: int|
            0 <= q <= usize::MAX && q % 4096 == 0 ==> #[trigger] after.free(q) == (before.free(q)
                || q == p),
    ensures
        forall|q: int|
            0 <= q <= usize::MAX && q % 4096 == 0 ==> #[trigger] after.free(q) == (v.free(q) || (
            has_page(run, q) && q < p + 4096)),
{
    reveal(CoalescerView::added_below);
    assert forall|q: int| 0 <= q <= usize::MAX && q % 4096 == 0 implies #[trigger] after.free(q) == (
    v.free(q) || (has_page(run, q) && q < p + 4096)) by {
        assert(after.free(q) == (before.free(q) || q == p));
    }
}

proof fn lemma_one_key(
    v: CoalescerView,
    before: CoalescerView,
    after: CoalescerView,
    run: Run,
    p: int,
    gpa_base: u64,
)
    requires
        v.added_below(before, run, p),
        has_page(run, p),
        0 <= page_base(before.host_page, p) <= u64::MAX,
        gpa_base == run.1 + (page_base(before.host_page, p) - run.0),
        ({
            let b = page_base(before.host_page, p) as u64;
            &&& forall|c: u64| #[trigger]
                after.pages.contains_key(c) <==> before.pages.contains_key(c) || c == b
            &&& forall|c: u64| #[trigger]
                after.pages.contains_key(c) ==> after.pages[c].1 == if before.pages.contains_key(
                    c,
                ) {
                    before.pages[c].1
                } else {
                    gpa_base
                }
        }),
    ensures
        forall|b: u64| #[trigger]
            after.pages.contains_key(b) <==> v.pages.contains_key(b) || touched_below(
                v.host_page,
                run,
                p + 4096,
                b as int,
            ),
        forall|b: u64| #[trigger]
            after.pages.contains_key(b) ==> after.pages[b].1 == (if v.pages.contains_key(b) {
                v.pages[b].1 as int
            } else {
                run.1 + (b - run.0)
            }),
{
    reveal(CoalescerView::added_below);
    let hp = v.host_page;
    assert forall|b: u64| #[trigger]
        after.pages.contains_key(b) <==> v.pages.contains_key(b) || touched_below(
            hp,
            run,
            p + 4096,
            b as int,
        ) by {
        lemma_touched_more(hp, run, p, b as int);
        assert(before.pages.contains_key(b) == (v.pages.contains_key(b) || touched_below(
            hp,
            run,
            p,
            b as int,
        )));
    }
    assert forall|b: u64| #[trigger] after.pages.contains_key(b) implies after.pages[b].1 == (
    if v.pages.contains_key(b) {
        v.pages[b].1 as int
    } else {
        run.1 + (b - run.0)
    }) by {
        assert(before.pages.contains_key(b) == (v.pages.contains_key(b) || touched_below(
            hp,
            run,
            p,
            b as int,
        )));
    }
}

proof fn lemma_touched_more(host_page: usize, r: Run, p: int, b: int)
    requires
        has_page(r, p),
    ensures
        touched_below(host_page, r, p + 4096, b) == (touched_below(host_page, r, p, b) || b
            == page_base(host_page, p)),
{
    if touched_below(host_page, r, p + 4096, b) {
        let q = choose|q: int|
            q < p + 4096 && #[trigger] has_page(r, q) && page_base(host_page, q) == b;
        if q >= p {
            assert(q == p);
        }
    }
    if touched_below(host_page, r, p, b) {
        let q = choose|q: int| q < p && #[trigger] has_page(r, q) && page_base(host_page, q) == b;
        assert(q < p + 4096);
    }
}

/// The guest pages inside a run are those from its start rounded up to its end rounded down.
proof fn lemma_run_pages(addr: int, len: int, q: int)
    requires
        0 <= addr,
        0 <= len,
        q % 4096 == 0,
    ensures
        (addr <= q && q + 4096 <= addr + len) == (round_up(addr) <= q < (addr + len) / 4096 * 4096),
{
}

proof fn lemma_base_grows(host_page: usize, a: int, b: int)
    requires
        valid_host_page(host_page),
        0 <= a <= b,
    ensures
        page_base(host_page, a) <= page_base(host_page, b),
{
}

/// Marking a guest page makes that page free and no other.
proof fn lemma_marked(before: CoalescerView, after: CoalescerView, p: int, gpa_base: u64)
    requires
        before.wf(),
        after.host_page == before.host_page,
        0 <= p <= usize::MAX,
        p % 4096 == 0,
        ({
            let b = page_base(before.host_page, p) as u64;
            let k = page_sub(before.host_page, p) as u64;
            let was = if before.pages.contains_key(b) {
                before.pages[b]
            } else {
                (0u64, gpa_base)
            };
            after.pages == before.pages.insert(b, (was.0 | (1u64 << k), was.1))
        }),
    ensures
        forall|q: int|
            0 <= q <= usize::MAX && q % 4096 == 0 ==> #[trigger] after.free(q) == (before.free(q)
                || q == p),
{
    let hp = before.host_page;
    lemma_page(hp, p);
    assert forall|q: int| 0 <= q <= usize::MAX && q % 4096 == 0 implies #[trigger] after.free(q) == (
    before.free(q) || q == p) by {
        lemma_page(hp, q);
        let b = page_base(hp, p) as u64;
        let k = page_sub(hp, p) as u64;
        let j = page_sub(hp, q) as u64;
        if page_base(hp, q) == page_base(hp, p) {
            let was = if before.pages.contains_key(b) {
                before.pages[b].0
            } else {
                0u64
            };
            lemma_set_bit(was, k, j);
            assert((0u64 >> j) & 1 == 0) by (bit_vector)
                requires
                    j < 64,
            ;
        }
    }
}

} // verus!
