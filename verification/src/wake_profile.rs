//! What the worker makes of the wakes that the probe saw.
use crate::wake_probe;
use crate::wake_probe::{irq_arm, IrqStat, ProbeView, WakeProbe, BINS, BUCKETS, OUTLIER_NS, REPORT_NS};
use vstd::prelude::*;

verus! {

/// The largest power of two that does not exceed `x`, by its exponent.
pub open spec fn log2(x: nat) -> nat
    decreases x,
{
    if x < 2 {
        0
    } else {
        1 + log2(x / 2)
    }
}

/// The eighth power.
pub open spec fn eighth(x: int) -> int {
    let square = x * x;
    let fourth = square * square;
    fourth * fourth
}

/// The bin of a time: eight to the octave, so that bin `i` has the times from two to the power of
/// `i / 8`, up to the next one's. The last bin has all that are longer.
pub open spec fn bin_of(ns: u64) -> nat {
    let bin = log2(eighth(ns as int) as nat);
    if bin < BINS {
        bin
    } else {
        (BINS - 1) as nat
    }
}

proof fn lemma_eighth_grows(a: int, b: int)
    requires
        0 <= a <= b,
    ensures
        0 <= eighth(a) <= eighth(b),
{
    let (a2, b2) = (a * a, b * b);
    let (a4, b4) = (a2 * a2, b2 * b2);
    assert(0 <= a2 <= b2) by (nonlinear_arith)
        requires
            0 <= a <= b,
            a2 == a * a,
            b2 == b * b,
    ;
    assert(0 <= a4 <= b4) by (nonlinear_arith)
        requires
            0 <= a2 <= b2,
            a4 == a2 * a2,
            b4 == b2 * b2,
    ;
    assert(0 <= a4 * a4 <= b4 * b4) by (nonlinear_arith)
        requires
            0 <= a4 <= b4,
    ;
}

proof fn lemma_eighth_doubled(x: int)
    ensures
        eighth(2 * x) == 256 * eighth(x),
{
    let s = x * x;
    let q = s * s;
    assert((2 * x) * (2 * x) == 4 * s) by (nonlinear_arith)
        requires
            s == x * x,
    ;
    assert((4 * s) * (4 * s) == 16 * q) by (nonlinear_arith)
        requires
            q == s * s,
    ;
    assert((16 * q) * (16 * q) == 256 * (q * q)) by (nonlinear_arith);
}

proof fn lemma_log2_is(x: nat, k: nat)
    requires
        vstd::arithmetic::power2::pow2(k) <= x < 2 * vstd::arithmetic::power2::pow2(k),
    ensures
        log2(x) == k,
    decreases k,
{
    if k == 0 {
        vstd::arithmetic::power2::lemma2_to64();
    } else {
        vstd::arithmetic::power2::lemma_pow2_unfold(k);
        vstd::arithmetic::power2::lemma_pow2_pos((k - 1) as nat);
        lemma_log2_is(x / 2, (k - 1) as nat);
    }
}

/// A number lies between the power of two of its exponent and the next.
proof fn lemma_log2_bounds(x: nat)
    requires
        x > 0,
    ensures
        vstd::arithmetic::power2::pow2(log2(x)) <= x < 2 * vstd::arithmetic::power2::pow2(log2(x)),
    decreases x,
{
    vstd::arithmetic::power2::lemma2_to64();
    if x >= 2 {
        lemma_log2_bounds(x / 2);
        vstd::arithmetic::power2::lemma_pow2_unfold(log2(x));
    }
}

proof fn lemma_log2_grows(a: nat, b: nat)
    requires
        a <= b,
    ensures
        log2(a) <= log2(b),
    decreases b,
{
    if b >= 2 && a >= 2 {
        lemma_log2_grows(a / 2, b / 2);
    }
}

proof fn lemma_log2_shifted(x: nat)
    requires
        x > 0,
    ensures
        log2(256 * x) == 8 + log2(x),
{
    assert(256 * x / 2 == 128 * x);
    assert(128 * x / 2 == 64 * x);
    assert(64 * x / 2 == 32 * x);
    assert(32 * x / 2 == 16 * x);
    assert(16 * x / 2 == 8 * x);
    assert(8 * x / 2 == 4 * x);
    assert(4 * x / 2 == 2 * x);
    assert(2 * x / 2 == x);
    reveal_with_fuel(log2, 9);
}

/// Where the octave below 32 bits begins, to the eighth power: two to the power of 248.
spec fn top_octave() -> int {
    0x100000000000000000000000000000000000000000000000000000000000000int
}

/// Where the bins of the octave below 32 bits are cut: the first number whose eighth power is as
/// large as a power of two.
proof fn lemma_cuts()
    ensures
        vstd::arithmetic::power2::pow2(248) <= eighth(0x8000_0000),
        eighth(0x8000_0000 - 1) < vstd::arithmetic::power2::pow2(248),
        vstd::arithmetic::power2::pow2(249) <= eighth(0x8b95_c1e4),
        eighth(0x8b95_c1e4 - 1) < vstd::arithmetic::power2::pow2(249),
        vstd::arithmetic::power2::pow2(250) <= eighth(0x9837_f052),
        eighth(0x9837_f052 - 1) < vstd::arithmetic::power2::pow2(250),
        vstd::arithmetic::power2::pow2(251) <= eighth(0xa5fe_d6aa),
        eighth(0xa5fe_d6aa - 1) < vstd::arithmetic::power2::pow2(251),
        vstd::arithmetic::power2::pow2(252) <= eighth(0xb504_f334),
        eighth(0xb504_f334 - 1) < vstd::arithmetic::power2::pow2(252),
        vstd::arithmetic::power2::pow2(253) <= eighth(0xc567_2a12),
        eighth(0xc567_2a12 - 1) < vstd::arithmetic::power2::pow2(253),
        vstd::arithmetic::power2::pow2(254) <= eighth(0xd744_fccb),
        eighth(0xd744_fccb - 1) < vstd::arithmetic::power2::pow2(254),
        vstd::arithmetic::power2::pow2(255) <= eighth(0xeac0_c6e8),
        eighth(0xeac0_c6e8 - 1) < vstd::arithmetic::power2::pow2(255),
        vstd::arithmetic::power2::pow2(256) <= eighth(0x1_0000_0000),
        eighth(0x1_0000_0000 - 1) < vstd::arithmetic::power2::pow2(256),
{
    let p: int = top_octave();
    let q: int = 0x1_0000_0000_0000_0000int;
    vstd::arithmetic::power2::lemma2_to64();
    vstd::arithmetic::power2::lemma2_to64_rest();
    vstd::arithmetic::power2::lemma_pow2_adds(64, 64);
    vstd::arithmetic::power2::lemma_pow2_adds(64, 56);
    vstd::arithmetic::power2::lemma_pow2_adds(128, 120);
    assert(vstd::arithmetic::power2::pow2(64) == q);
    assert(vstd::arithmetic::power2::pow2(56) == 0x100_0000_0000_0000int);
    assert(vstd::arithmetic::power2::pow2(128) == q * q);
    assert(vstd::arithmetic::power2::pow2(120) == q * 0x100_0000_0000_0000int);
    assert((q * q) * (q * 0x100_0000_0000_0000int) == p) by (nonlinear_arith)
        requires
            q == 0x1_0000_0000_0000_0000int,
            p == top_octave(),
    ;
    assert(vstd::arithmetic::power2::pow2(248) == p);
    assert(1 * p <= eighth(0x8000_0000) && eighth(0x8000_0000 - 1) < 1 * p) by (nonlinear_arith)
        requires
            p == top_octave(),
    ;
    assert(2 * p <= eighth(0x8b95_c1e4) && eighth(0x8b95_c1e4 - 1) < 2 * p) by (nonlinear_arith)
        requires
            p == top_octave(),
    ;
    assert(4 * p <= eighth(0x9837_f052) && eighth(0x9837_f052 - 1) < 4 * p) by (nonlinear_arith)
        requires
            p == top_octave(),
    ;
    assert(8 * p <= eighth(0xa5fe_d6aa) && eighth(0xa5fe_d6aa - 1) < 8 * p) by (nonlinear_arith)
        requires
            p == top_octave(),
    ;
    assert(16 * p <= eighth(0xb504_f334) && eighth(0xb504_f334 - 1) < 16 * p) by (nonlinear_arith)
        requires
            p == top_octave(),
    ;
    assert(32 * p <= eighth(0xc567_2a12) && eighth(0xc567_2a12 - 1) < 32 * p) by (nonlinear_arith)
        requires
            p == top_octave(),
    ;
    assert(64 * p <= eighth(0xd744_fccb) && eighth(0xd744_fccb - 1) < 64 * p) by (nonlinear_arith)
        requires
            p == top_octave(),
    ;
    assert(128 * p <= eighth(0xeac0_c6e8) && eighth(0xeac0_c6e8 - 1) < 128 * p) by (nonlinear_arith)
        requires
            p == top_octave(),
    ;
    assert(256 * p <= eighth(0x1_0000_0000) && eighth(0x1_0000_0000 - 1) < 256 * p) by (nonlinear_arith)
        requires
            p == top_octave(),
    ;
    vstd::arithmetic::power2::lemma_pow2_unfold(249);
    vstd::arithmetic::power2::lemma_pow2_unfold(250);
    vstd::arithmetic::power2::lemma_pow2_unfold(251);
    vstd::arithmetic::power2::lemma_pow2_unfold(252);
    vstd::arithmetic::power2::lemma_pow2_unfold(253);
    vstd::arithmetic::power2::lemma_pow2_unfold(254);
    vstd::arithmetic::power2::lemma_pow2_unfold(255);
    vstd::arithmetic::power2::lemma_pow2_unfold(256);
}

/// The bin of a time.
pub fn bin(ns: u64) -> (r: usize)
    ensures
        r == bin_of(ns),
        r < BINS,
{
    proof {
        lemma_cuts();
    }
    if ns < 2 {
        assert(eighth(0) == 0 && eighth(1) == 1);
        return 0;
    }
    if ns >= 0x1_0000_0000 {
        proof {
            lemma_eighth_grows(0x1_0000_0000, ns as int);
            lemma_log2_is(vstd::arithmetic::power2::pow2(256), 256);
            lemma_log2_grows(
                vstd::arithmetic::power2::pow2(256),
                eighth(ns as int) as nat,
            );
        }
        return BINS - 1;
    }
    let mut octave: usize = 31;
    let mut y: u64 = ns;
    proof {
        lemma_eighth_grows(1, ns as int);
    }
    assert(eighth(1) == 1);
    while y < 0x8000_0000
        invariant
            2 <= ns <= y < 0x1_0000_0000,
            octave <= 31,
            vstd::arithmetic::power2::pow2(248) > eighth(0x8000_0000 - 1),
            eighth(ns as int) > 0,
            log2(eighth(y as int) as nat) == log2(eighth(ns as int) as nat) + 8 * (31 - octave),
        decreases octave,
    {
        proof {
            lemma_eighth_grows(ns as int, y as int);
            lemma_eighth_doubled(y as int);
            lemma_log2_shifted(eighth(y as int) as nat);
            lemma_eighth_grows(y as int, 0x8000_0000 - 1);
            vstd::arithmetic::power2::lemma_pow2_unfold(248);
            vstd::arithmetic::power2::lemma_pow2_pos(247);
            let below = (vstd::arithmetic::power2::pow2(248) - 1) as nat;
            lemma_log2_is(below, 247);
            lemma_log2_grows(eighth(y as int) as nat, below);
        }
        y = 2 * y;
        octave = octave - 1;
    }
    let m: usize = if y < 0x8b95_c1e4 {
        0
    } else if y < 0x9837_f052 {
        1
    } else if y < 0xa5fe_d6aa {
        2
    } else if y < 0xb504_f334 {
        3
    } else if y < 0xc567_2a12 {
        4
    } else if y < 0xd744_fccb {
        5
    } else if y < 0xeac0_c6e8 {
        6
    } else {
        7
    };
    proof {
        lemma_eighth_grows(0x8000_0000, y as int);
        if m == 0 {
            lemma_eighth_grows(0x8000_0000, y as int);
            lemma_eighth_grows(y as int, 0x8b95_c1e4 - 1);
            vstd::arithmetic::power2::lemma_pow2_unfold(249);
        }
        if m == 1 {
            lemma_eighth_grows(0x8b95_c1e4, y as int);
            lemma_eighth_grows(y as int, 0x9837_f052 - 1);
            vstd::arithmetic::power2::lemma_pow2_unfold(250);
        }
        if m == 2 {
            lemma_eighth_grows(0x9837_f052, y as int);
            lemma_eighth_grows(y as int, 0xa5fe_d6aa - 1);
            vstd::arithmetic::power2::lemma_pow2_unfold(251);
        }
        if m == 3 {
            lemma_eighth_grows(0xa5fe_d6aa, y as int);
            lemma_eighth_grows(y as int, 0xb504_f334 - 1);
            vstd::arithmetic::power2::lemma_pow2_unfold(252);
        }
        if m == 4 {
            lemma_eighth_grows(0xb504_f334, y as int);
            lemma_eighth_grows(y as int, 0xc567_2a12 - 1);
            vstd::arithmetic::power2::lemma_pow2_unfold(253);
        }
        if m == 5 {
            lemma_eighth_grows(0xc567_2a12, y as int);
            lemma_eighth_grows(y as int, 0xd744_fccb - 1);
            vstd::arithmetic::power2::lemma_pow2_unfold(254);
        }
        if m == 6 {
            lemma_eighth_grows(0xd744_fccb, y as int);
            lemma_eighth_grows(y as int, 0xeac0_c6e8 - 1);
            vstd::arithmetic::power2::lemma_pow2_unfold(255);
        }
        if m == 7 {
            lemma_eighth_grows(0xeac0_c6e8, y as int);
            lemma_eighth_grows(y as int, 0x1_0000_0000 - 1);
            vstd::arithmetic::power2::lemma_pow2_unfold(256);
        }
        lemma_log2_is(eighth(y as int) as nat, (248 + m) as nat);
    }
    8 * octave + m
}

/// A histogram of times. Medians and not means are read off it, because a few long waits would
/// hide what is usual; the longest is kept beside.
pub struct Hist {
    bins: Vec<u32>,
    n: u64,
    max: u64,
}

#[verifier::ext_equal]
pub struct HistView {
    pub bins: Seq<u32>,
    pub n: u64,
    pub max: u64,
}

impl View for Hist {
    type V = HistView;

    closed spec fn view(&self) -> HistView {
        HistView { bins: self.bins@, n: self.n, max: self.max }
    }
}

/// No time was seen.
pub open spec fn no_times() -> HistView {
    HistView { bins: Seq::new(BINS as nat, |i: int| 0u32), n: 0, max: 0 }
}

/// How many of the times lie in the first `k` bins.
pub open spec fn below(bins: Seq<u32>, k: int) -> nat
    decreases k,
{
    if k <= 0 {
        0
    } else {
        below(bins, k - 1) + bins[k - 1] as nat
    }
}

impl HistView {
    pub open spec fn wf(self) -> bool {
        self.bins.len() == BINS
    }

    /// After one more time.
    pub open spec fn with(self, ns: u64) -> Self {
        HistView {
            n: self.n.wrapping_add(1),
            max: if self.max < ns {
                ns
            } else {
                self.max
            },
            bins: self.bins.update(
                bin_of(ns) as int,
                self.bins[bin_of(ns) as int].wrapping_add(1),
            ),
        }
    }

    /// The first bin up to which `target` times lie.
    pub open spec fn is_rank(self, target: u64, k: int) -> bool {
        &&& 0 <= k < BINS
        &&& below(self.bins, k + 1) >= target
        &&& forall|j: int| 0 <= j < k ==> #[trigger] below(self.bins, j + 1) < target
    }
}

impl Hist {
    pub closed spec fn inv(self) -> bool {
        self@.wf()
    }

    pub fn new() -> (r: Self)
        ensures
            r.inv(),
            r@ == no_times(),
    {
        let r = Hist { bins: vec![0u32; 256], n: 0, max: 0 };
        assert(r@.bins =~= no_times().bins);
        r
    }

    /// Adds a time.
    pub fn add(&mut self, ns: u64)
        requires
            old(self).inv(),
        ensures
            final(self).inv(),
            final(self)@ == old(self)@.with(ns),
    {
        self.n = self.n.wrapping_add(1);
        if self.max < ns {
            self.max = ns;
        }
        let at: usize = bin(ns);
        let count: u32 = self.bins[at].wrapping_add(1);
        self.bins.set(at, count);
    }

    /// How many times were added.
    pub fn count(&self) -> (r: u64)
        ensures
            r == self@.n,
    {
        self.n
    }

    /// The longest time.
    pub fn longest(&self) -> (r: u64)
        ensures
            r == self@.max,
    {
        self.max
    }

    /// The bin in which the `target`th of the times lies, counted from the shortest.
    pub fn rank(&self, target: u64) -> (r: Option<usize>)
        requires
            self.inv(),
        ensures
            match r {
                Some(k) => self@.is_rank(target, k as int),
                None => below(self@.bins, BINS as int) < target,
            },
    {
        let mut seen: u64 = 0;
        let mut i: usize = 0;
        while i < BINS
            invariant
                self.inv(),
                i <= BINS,
                seen == below(self@.bins, i as int),
                seen <= i * 0xffff_ffff,
                forall|j: int| 0 <= j < i ==> #[trigger] below(self@.bins, j + 1) < target,
            decreases BINS - i,
        {
            seen = seen + self.bins[i] as u64;
            if seen >= target {
                return Some(i);
            }
            i = i + 1;
        }
        assert(below(self@.bins, (BINS - 1) + 1) < target);
        None
    }
}

/// The wakes behind one idle gap, hop by hop.
pub struct Bucket {
    n: u64,
    /// From the doorbell to the worker.
    kick_wake: Hist,
    /// From the worker's waking to an empty queue.
    wake_drain: Hist,
    /// From there to the interrupt.
    drain_sig: Hist,
    /// The control: how fast the machine is at the moment.
    calib: Hist,
}

#[verifier::ext_equal]
pub struct BucketView {
    pub n: u64,
    pub kick_wake: HistView,
    pub wake_drain: HistView,
    pub drain_sig: HistView,
    pub calib: HistView,
}

impl View for Bucket {
    type V = BucketView;

    closed spec fn view(&self) -> BucketView {
        BucketView {
            n: self.n,
            kick_wake: self.kick_wake@,
            wake_drain: self.wake_drain@,
            drain_sig: self.drain_sig@,
            calib: self.calib@,
        }
    }
}

/// No wake was seen.
pub open spec fn no_wakes() -> BucketView {
    BucketView {
        n: 0,
        kick_wake: no_times(),
        wake_drain: no_times(),
        drain_sig: no_times(),
        calib: no_times(),
    }
}

impl BucketView {
    pub open spec fn wf(self) -> bool {
        self.kick_wake.wf() && self.wake_drain.wf() && self.drain_sig.wf() && self.calib.wf()
    }

    /// After one more wake.
    pub open spec fn with(self, kick_wake: u64, wake_drain: u64, drain_sig: u64) -> Self {
        BucketView {
            n: self.n.wrapping_add(1),
            kick_wake: self.kick_wake.with(kick_wake),
            wake_drain: self.wake_drain.with(wake_drain),
            drain_sig: self.drain_sig.with(drain_sig),
            ..self
        }
    }

    /// After the control was measured, if it was.
    pub open spec fn controlled(self, calib: Option<u64>) -> Self {
        match calib {
            Some(ns) => BucketView { calib: self.calib.with(ns), ..self },
            None => self,
        }
    }
}

impl Bucket {
    pub closed spec fn inv(self) -> bool {
        self.kick_wake.inv() && self.wake_drain.inv() && self.drain_sig.inv() && self.calib.inv()
    }

    pub fn new() -> (r: Self)
        ensures
            r.inv(),
            r@ == no_wakes(),
    {
        Bucket {
            n: 0,
            kick_wake: Hist::new(),
            wake_drain: Hist::new(),
            drain_sig: Hist::new(),
            calib: Hist::new(),
        }
    }

    /// Adds a wake.
    pub fn add(&mut self, kick_wake: u64, wake_drain: u64, drain_sig: u64)
        requires
            old(self).inv(),
        ensures
            final(self).inv(),
            final(self)@ == old(self)@.with(kick_wake, wake_drain, drain_sig),
    {
        self.n = self.n.wrapping_add(1);
        self.kick_wake.add(kick_wake);
        self.wake_drain.add(wake_drain);
        self.drain_sig.add(drain_sig);
    }

    fn control(&mut self, calib: Option<u64>)
        requires
            old(self).inv(),
        ensures
            final(self).inv(),
            final(self)@ == old(self)@.controlled(calib),
    {
        match calib {
            Some(ns) => self.calib.add(ns),
            None => {},
        }
    }

    pub fn count(&self) -> (r: u64)
        ensures
            r == self@.n,
    {
        self.n
    }

    pub fn kick_wake(&self) -> (r: &Hist)
        requires
            self.inv(),
        ensures
            r.inv(),
            r@ == self@.kick_wake,
    {
        &self.kick_wake
    }

    pub fn wake_drain(&self) -> (r: &Hist)
        requires
            self.inv(),
        ensures
            r.inv(),
            r@ == self@.wake_drain,
    {
        &self.wake_drain
    }

    pub fn drain_sig(&self) -> (r: &Hist)
        requires
            self.inv(),
        ensures
            r.inv(),
            r@ == self@.drain_sig,
    {
        &self.drain_sig
    }

    pub fn calib(&self) -> (r: &Hist)
        requires
            self.inv(),
        ensures
            r.inv(),
            r@ == self@.calib,
    {
        &self.calib
    }
}

/// What so many steps of the control make of its first number.
pub open spec fn worked(steps: nat) -> u64
    decreases steps,
{
    if steps == 0 {
        0x9e37_79b9_7f4a_7c15
    } else {
        worked((steps - 1) as nat).wrapping_mul(6364136223846793005).wrapping_add(
            (steps - 1) as u64,
        )
    }
}

/// The control's work: the same each time, and dependent on nothing, so that the time it takes
/// tells how fast the machine is and nothing else.
pub fn calibrate() -> (r: u64)
    ensures
        r == worked(20_000),
{
    let mut x: u64 = 0x9e37_79b9_7f4a_7c15;
    let mut i: u64 = 0;
    while i < 20_000
        invariant
            i <= 20_000,
            x == worked(i as nat),
        decreases 20_000 - i,
    {
        x = x.wrapping_mul(6364136223846793005).wrapping_add(i);
        i = i + 1;
    }
    x
}

/// The bucket of an idle gap.
pub open spec fn bucket_of(gap: u64) -> nat {
    if gap < 1_000_000 {
        0
    } else if gap < 4_000_000 {
        1
    } else if gap < 16_000_000 {
        2
    } else {
        3
    }
}

/// A drain that took too long.
#[derive(Clone, Copy, PartialEq, Eq, Structural, Debug)]
pub struct Outlier {
    pub bucket: usize,
    pub total_ns: u64,
    pub kick_wake_ns: u64,
    pub drain_ns: u64,
    pub signal_ns: u64,
    pub cmds: u64,
    pub worst_type: u32,
    pub worst_ns: u64,
}

/// What a report says of one idle gap.
pub struct BucketLine {
    pub index: usize,
    pub bucket: Bucket,
    /// Interrupts answered by a virtual processor that ran.
    pub running: IrqStat,
    /// Interrupts answered by one that was parked.
    pub parked: IrqStat,
}

pub struct LineView {
    pub index: nat,
    pub bucket: BucketView,
    pub running: IrqStat,
    pub parked: IrqStat,
}

impl View for BucketLine {
    type V = LineView;

    open spec fn view(&self) -> LineView {
        LineView {
            index: self.index as nat,
            bucket: self.bucket@,
            running: self.running,
            parked: self.parked,
        }
    }
}

/// A report: a line for each idle gap in which something happened, and the counts.
pub struct Report {
    pub lines: Vec<BucketLine>,
    pub no_kick: u64,
    pub coalesced: u64,
    pub irq_coalesced: u64,
    /// The interrupt controller is in software, so `running` means what it says.
    pub software_gic: bool,
}

/// What the worker knows of its wakes.
pub struct Profile {
    buckets: Vec<Bucket>,
    no_kick: u64,
    last_kick_ns: u64,
    report_at_ns: u64,
    pending_idx: Option<usize>,
}

#[verifier::ext_equal]
pub struct ProfileView {
    pub buckets: Seq<BucketView>,
    /// Wakes without a doorbell.
    pub no_kick: u64,
    pub last_kick_ns: u64,
    pub report_at_ns: u64,
    /// The bucket of the doorbell that is being served.
    pub pending_idx: Option<usize>,
}

impl View for Profile {
    type V = ProfileView;

    closed spec fn view(&self) -> ProfileView {
        ProfileView {
            buckets: Seq::new(self.buckets@.len(), |i: int| self.buckets@[i]@),
            no_kick: self.no_kick,
            last_kick_ns: self.last_kick_ns,
            report_at_ns: self.report_at_ns,
            pending_idx: self.pending_idx,
        }
    }
}

/// No wake was seen in any bucket.
pub open spec fn no_buckets() -> Seq<BucketView> {
    seq![no_wakes(), no_wakes(), no_wakes(), no_wakes()]
}

/// The lines of a report, of the first `k` buckets.
pub open spec fn lines_of(buckets: Seq<BucketView>, probe: ProbeView, k: int) -> Seq<LineView>
    decreases k,
{
    if k <= 0 {
        Seq::empty()
    } else if buckets[k - 1].n == 0 {
        lines_of(buckets, probe, k - 1)
    } else {
        lines_of(buckets, probe, k - 1).push(
            LineView {
                index: (k - 1) as nat,
                bucket: buckets[k - 1],
                running: probe.irq_running_stats[k - 1],
                parked: probe.irq_parked_stats[k - 1],
            },
        )
    }
}

/// Interrupt counts after a report: those of the buckets in it start over.
pub open spec fn started_over(stats: Seq<IrqStat>, buckets: Seq<BucketView>, k: int) -> Seq<
    IrqStat,
> {
    Seq::new(
        stats.len(),
        |i: int|
            if i < k && buckets[i].n != 0 {
                wake_probe::no_irqs()
            } else {
                stats[i]
            },
    )
}

impl ProfileView {
    /// After a doorbell: its bucket is that of the gap before it.
    pub open spec fn doorbell(self, kick_ns: u64) -> Self {
        ProfileView {
            last_kick_ns: kick_ns,
            pending_idx: Some(
                bucket_of(wake_probe::since(kick_ns, self.last_kick_ns)) as usize,
            ),
            ..self
        }
    }

    /// After a doorbell was served.
    pub open spec fn served(
        self,
        kick_ns: u64,
        wake_ns: u64,
        drained_ns: u64,
        signaled_ns: u64,
        calib: Option<u64>,
    ) -> Self {
        match self.pending_idx {
            None => self,
            Some(idx) => ProfileView {
                pending_idx: None,
                buckets: self.buckets.update(
                    idx as int,
                    self.buckets[idx as int].with(
                        wake_probe::since(wake_ns, kick_ns),
                        wake_probe::since(drained_ns, wake_ns),
                        wake_probe::since(signaled_ns, drained_ns),
                    ).controlled(calib),
                ),
                ..self
            },
        }
    }
}

fn four_buckets() -> (r: Vec<Bucket>)
    ensures
        r@.len() == 4,
        forall|i: int| 0 <= i < 4 ==> (#[trigger] r@[i]).inv() && r@[i]@ == no_wakes(),
{
    let mut r: Vec<Bucket> = Vec::new();
    r.push(Bucket::new());
    r.push(Bucket::new());
    r.push(Bucket::new());
    r.push(Bucket::new());
    r
}

impl Profile {
    pub closed spec fn inv(self) -> bool {
        &&& self.buckets@.len() == BUCKETS
        &&& forall|i: int| 0 <= i < self.buckets@.len() ==> (#[trigger] self.buckets@[i]).inv()
        &&& self.pending_idx matches Some(i) ==> i < BUCKETS
    }

    /// A profile, if the probe is on.
    pub fn new(on: bool, now: u64) -> (r: Option<Self>)
        requires
            now + REPORT_NS <= u64::MAX,
        ensures
            match r {
                Some(p) => on && p.inv() && p@ == (ProfileView {
                    buckets: no_buckets(),
                    no_kick: 0,
                    last_kick_ns: 0,
                    report_at_ns: (now + REPORT_NS) as u64,
                    pending_idx: None,
                }),
                None => !on,
            },
    {
        if !on {
            return None;
        }
        let p = Profile {
            buckets: four_buckets(),
            no_kick: 0,
            last_kick_ns: 0,
            report_at_ns: now + REPORT_NS,
            pending_idx: None,
        };
        assert(p@.buckets =~= no_buckets());
        Some(p)
    }

    /// Sorts a doorbell by the gap before it.
    pub fn arm(&mut self, kick_ns: u64)
        requires
            old(self).inv(),
        ensures
            final(self).inv(),
            final(self)@ == old(self)@.doorbell(kick_ns),
    {
        let gap: u64 = kick_ns.saturating_sub(self.last_kick_ns);
        self.last_kick_ns = kick_ns;
        let idx: usize = if gap < 1_000_000 {
            0
        } else if gap < 4_000_000 {
            1
        } else if gap < 16_000_000 {
            2
        } else {
            3
        };
        self.pending_idx = Some(idx);
        assert(self@.buckets =~= old(self)@.buckets);
    }

    /// An interrupt is about to be raised for the doorbell that is being served, if one is.
    pub fn arm_irq(&self, probe: &mut WakeProbe, now: u64)
        requires
            self.inv(),
            old(probe).inv(),
        ensures
            final(probe).inv(),
            final(probe)@ == match self@.pending_idx {
                Some(idx) => old(probe)@.armed(idx, now),
                None => old(probe)@,
            },
    {
        match self.pending_idx {
            Some(idx) => irq_arm(probe, idx, now),
            None => {},
        }
    }

    /// A doorbell was served: when it rang, when the worker woke, when the queue was empty and when
    /// the guest was interrupted, and how long the control took, if it ran. Gives what is to be
    /// reported at once, if the drain took too long. The commands of this drain are forgotten
    /// either way.
    pub fn record(
        &mut self,
        probe: &mut WakeProbe,
        kick_ns: u64,
        wake_ns: u64,
        drained_ns: u64,
        signaled_ns: u64,
        calib: Option<u64>,
    ) -> (r: Option<Outlier>)
        requires
            old(self).inv(),
            old(probe).inv(),
        ensures
            final(self).inv(),
            final(probe).inv(),
            final(self)@ == old(self)@.served(kick_ns, wake_ns, drained_ns, signaled_ns, calib),
            match old(self)@.pending_idx {
                None => r is None && final(probe)@ == old(probe)@,
                Some(idx) => {
                    &&& final(probe)@ == (ProbeView {
                        cmd_count: 0,
                        cmd_worst_ns: 0,
                        cmd_worst_type: 0,
                        ..old(probe)@
                    })
                    &&& r == if wake_probe::since(drained_ns, wake_ns) < OUTLIER_NS {
                        None
                    } else {
                        Some(
                            Outlier {
                                bucket: idx,
                                total_ns: wake_probe::since(signaled_ns, kick_ns),
                                kick_wake_ns: wake_probe::since(wake_ns, kick_ns),
                                drain_ns: wake_probe::since(drained_ns, wake_ns),
                                signal_ns: wake_probe::since(signaled_ns, drained_ns),
                                cmds: old(probe)@.cmd_count,
                                worst_type: old(probe)@.cmd_worst_type,
                                worst_ns: old(probe)@.cmd_worst_ns,
                            },
                        )
                    }
                },
            },
    {
        let ghost before = self@;
        let idx: usize = match self.pending_idx {
            Some(idx) => idx,
            None => {
                return None;
            },
        };
        self.pending_idx = None;
        let kick_wake_ns: u64 = wake_ns.saturating_sub(kick_ns);
        let drain_ns: u64 = drained_ns.saturating_sub(wake_ns);
        let signal_ns: u64 = signaled_ns.saturating_sub(drained_ns);
        self.buckets[idx].add(kick_wake_ns, drain_ns, signal_ns);
        self.buckets[idx].control(calib);
        assert(self@.buckets =~= before.served(
            kick_ns,
            wake_ns,
            drained_ns,
            signaled_ns,
            calib,
        ).buckets);
        let (cmds, worst_type, worst_ns) = wake_probe::take_commands(probe);
        if drain_ns < OUTLIER_NS {
            return None;
        }
        Some(
            Outlier {
                bucket: idx,
                total_ns: signaled_ns.saturating_sub(kick_ns),
                kick_wake_ns,
                drain_ns,
                signal_ns,
                cmds,
                worst_type,
                worst_ns,
            },
        )
    }

    /// A wake without a doorbell.
    pub fn record_no_kick(&mut self)
        requires
            old(self).inv(),
        ensures
            final(self).inv(),
            final(self)@ == (ProfileView {
                no_kick: old(self)@.no_kick.wrapping_add(1),
                ..old(self)@
            }),
    {
        self.no_kick = self.no_kick.wrapping_add(1);
        assert(self@.buckets =~= old(self)@.buckets);
    }

    /// Gives a report when one is due, and starts over.
    pub fn maybe_report(&mut self, probe: &mut WakeProbe, now: u64) -> (r: Option<Report>)
        requires
            old(self).inv(),
            old(probe).inv(),
            now + REPORT_NS <= u64::MAX,
        ensures
            final(self).inv(),
            final(probe).inv(),
            match r {
                None => {
                    &&& now < old(self)@.report_at_ns
                    &&& final(self)@ == old(self)@
                    &&& final(probe)@ == old(probe)@
                },
                Some(report) => {
                    let b = old(self)@.buckets;
                    &&& now >= old(self)@.report_at_ns
                    &&& final(self)@ == (ProfileView {
                        buckets: no_buckets(),
                        no_kick: 0,
                        report_at_ns: (now + REPORT_NS) as u64,
                        ..old(self)@
                    })
                    &&& final(probe)@ == (ProbeView {
                        coalesced: 0,
                        irq_coalesced: 0,
                        irq_running_stats: started_over(
                            old(probe)@.irq_running_stats,
                            b,
                            BUCKETS as int,
                        ),
                        irq_parked_stats: started_over(
                            old(probe)@.irq_parked_stats,
                            b,
                            BUCKETS as int,
                        ),
                        ..old(probe)@
                    })
                    &&& report.lines@.map_values(|l: BucketLine| l@) == lines_of(
                        b,
                        old(probe)@,
                        BUCKETS as int,
                    )
                    &&& forall|i: int|
                        0 <= i < report.lines@.len() ==> (#[trigger] report.lines@[i]).bucket.inv()
                    &&& report.no_kick == old(self)@.no_kick
                    &&& report.coalesced == old(probe)@.coalesced
                    &&& report.irq_coalesced == old(probe)@.irq_coalesced
                    &&& report.software_gic == old(probe)@.software_gic
                },
            },
    {
        if now < self.report_at_ns {
            return None;
        }
        let ghost b = self@.buckets;
        let ghost seen = probe@;
        self.report_at_ns = now + REPORT_NS;
        let coalesced: u64 = wake_probe::take_coalesced(probe);
        let mut old_buckets: Vec<Bucket> = four_buckets();
        std::mem::swap(&mut old_buckets, &mut self.buckets);
        let no_kick: u64 = self.no_kick;
        self.no_kick = 0;
        let mut lines: Vec<BucketLine> = Vec::new();
        let mut i: usize = 0;
        assert(lines@.map_values(|l: BucketLine| l@) =~= lines_of(b, seen, 0));
        assert(probe@ =~= ProbeView {
            coalesced: 0,
            irq_running_stats: started_over(seen.irq_running_stats, b, 0),
            irq_parked_stats: started_over(seen.irq_parked_stats, b, 0),
            ..seen
        });
        for bucket in it: old_buckets
            invariant
                it.seq().len() == BUCKETS,
                b.len() == BUCKETS,
                i == it.index(),
                forall|k: int|
                    0 <= k < BUCKETS ==> (#[trigger] it.seq()[k]).inv() && it.seq()[k]@ == b[k],
                probe.inv(),
                seen.wf(),
                probe@ == (ProbeView {
                    coalesced: 0,
                    irq_running_stats: started_over(seen.irq_running_stats, b, i as int),
                    irq_parked_stats: started_over(seen.irq_parked_stats, b, i as int),
                    ..seen
                }),
                lines@.map_values(|l: BucketLine| l@) == lines_of(b, seen, i as int),
                forall|k: int| 0 <= k < lines@.len() ==> (#[trigger] lines@[k]).bucket.inv(),
        {
            if bucket.count() != 0 {
                let (running, parked) = wake_probe::take_irqs(probe, i);
                let ghost earlier = lines@;
                let line = BucketLine { index: i, bucket, running, parked };
                lines.push(line);
                assert(lines@.map_values(|l: BucketLine| l@) =~= earlier.map_values(
                    |l: BucketLine| l@,
                ).push(line@));
            }
            i = i + 1;
            assert(probe@ =~= ProbeView {
                coalesced: 0,
                irq_running_stats: started_over(seen.irq_running_stats, b, i as int),
                irq_parked_stats: started_over(seen.irq_parked_stats, b, i as int),
                ..seen
            });
        }
        let irq_coalesced: u64 = wake_probe::take_irq_coalesced(probe);
        let software_gic: bool = wake_probe::has_software_gic(probe);
        assert(self@.buckets =~= no_buckets());
        Some(Report { lines, no_kick, coalesced, irq_coalesced, software_gic })
    }
}

/// Whether a report says anything of its counts: only where one is not zero.
pub fn has_counts(report: &Report) -> (r: bool)
    ensures
        r == (report.no_kick > 0 || report.coalesced > 0 || report.irq_coalesced > 0),
{
    report.no_kick > 0 || report.coalesced > 0 || report.irq_coalesced > 0
}

/// The bins lie side by side, eight to the octave: a time in bin `i`, other than the last, is at
/// least two to the power of `i / 8`, and less than two to the power of `(i + 1) / 8`.
pub proof fn law_bins_lie_side_by_side(ns: u64, i: nat)
    requires
        ns >= 1,
        i < BINS - 1,
    ensures
        bin_of(ns) == i <==> vstd::arithmetic::power2::pow2(i) <= eighth(ns as int)
            < vstd::arithmetic::power2::pow2(i + 1),
{
    let x = eighth(ns as int) as nat;
    assert(eighth(1) == 1);
    lemma_eighth_grows(1, ns as int);
    lemma_log2_bounds(x);
    vstd::arithmetic::power2::lemma_pow2_unfold(i + 1);
    if vstd::arithmetic::power2::pow2(i) <= x < vstd::arithmetic::power2::pow2(i + 1) {
        lemma_log2_is(x, i);
    }
}

/// A doorbell that waits is taken once, with the time of the oldest that rang: those behind it are
/// counted, and none of them moves the stamp.
pub proof fn law_oldest_doorbell_counts(p: ProbeView, first: u64, second: u64)
    requires
        p.kick_ns == 0,
        first != 0,
        p.coalesced < u64::MAX,
    ensures
        p.kicked(p.watched_fd, first).kick_ns == first,
        p.kicked(p.watched_fd, first).kicked(p.watched_fd, second).kick_ns == first,
        p.kicked(p.watched_fd, first).kicked(p.watched_fd, second).coalesced == p.coalesced + 1,
{
}

/// An interrupt that rides on one that the guest did not answer is not timed: the sample is that of
/// the first, and there is one.
pub proof fn law_first_raise_is_timed(p: ProbeView, b: usize, c: usize, first: u64, second: u64, ack: u64)
    requires
        p.wf(),
        !p.irq_armed,
        b < BUCKETS,
        c < BUCKETS,
    ensures
        p.armed(b, first).armed(c, second).acked(p.watched_fd, ack).irq_running_stats
            == p.irq_running_stats.update(
            b as int,
            p.irq_running_stats[b as int].with(wake_probe::since(ack, first)),
        ),
        !p.armed(b, first).armed(c, second).acked(p.watched_fd, ack).irq_armed,
        p.armed(b, first).acked(p.watched_fd, ack).acked(p.watched_fd, ack) == p.armed(
            b,
            first,
        ).acked(p.watched_fd, ack),
{
}

} // verus!
