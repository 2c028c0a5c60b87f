//! The fence ledger: which descriptors wait for a fence, and how far each ring has completed.
use crate::gpu::protocol::VIRTIO_GPU_FLAG_INFO_RING_IDX;
use crate::text;
use crate::text::put_decimal;
use crate::ordered;
use std::collections::BTreeMap;
use vstd::prelude::*;
use vstd::string::*;

verus! {
/// The ring of a context that carries the host's own present fences. Guests do not use it.
pub const PRESENT_RING: u8 = 63;

/// A timeline of fences: the device's one, or one of a context.
#[derive(Clone, Copy, PartialEq, Eq, PartialOrd, Ord, Structural, Debug)]
pub enum VirtioGpuRing {
    Global,
    ContextSpecific { ctx_id: u32, ring_idx: u8 },
}

/// A fence as the renderer knows it.
#[derive(Clone, Copy, PartialEq, Eq, Structural, Debug)]
pub struct RendererFence {
    pub flags: u32,
    pub fence_id: u64,
    pub ctx_id: u32,
    pub ring_idx: u8,
}

/// A control-queue descriptor that goes back to the guest when its fence completes.
#[derive(Clone, Copy, PartialEq, Eq, Structural, Debug)]
pub struct FenceDescriptor {
    pub ring: VirtioGpuRing,
    pub fence_id: u64,
    pub desc_index: u16,
    pub len: u32,
    /// When the descriptor was parked, in nanoseconds.
    pub created_ns: u64,
}

pub struct FenceState {
    descs: Vec<FenceDescriptor>,
    completed_fences: BTreeMap<u64, u64>,
}

/// The ring's key: 0 for the global ring, else one past the context id and the ring number.
pub open spec fn ring_key(ring: VirtioGpuRing) -> u64 {
    match ring {
        VirtioGpuRing::Global => 0,
        VirtioGpuRing::ContextSpecific { ctx_id, ring_idx } => (1 + ctx_id * 256 + ring_idx) as u64,
    }
}

/// The ring a fence is on.
pub open spec fn ring_of(fence: RendererFence) -> VirtioGpuRing {
    if fence.flags & VIRTIO_GPU_FLAG_INFO_RING_IDX == 0 {
        VirtioGpuRing::Global
    } else {
        VirtioGpuRing::ContextSpecific { ctx_id: fence.ctx_id, ring_idx: fence.ring_idx }
    }
}

pub open spec fn larger(a: u64, b: u64) -> u64 {
    if a >= b {
        a
    } else {
        b
    }
}

proof fn lemma_ring_key_injective(a: VirtioGpuRing, b: VirtioGpuRing)
    ensures
        ring_key(a) == ring_key(b) ==> a == b,
{
}

impl RendererFence {
    /// The ring this fence is on.
    pub fn ring(&self) -> (r: VirtioGpuRing)
        ensures
            r == ring_of(*self),
    {
        if self.flags & VIRTIO_GPU_FLAG_INFO_RING_IDX == 0 {
            VirtioGpuRing::Global
        } else {
            VirtioGpuRing::ContextSpecific { ctx_id: self.ctx_id, ring_idx: self.ring_idx }
        }
    }
}

impl VirtioGpuRing {
    fn key(&self) -> (r: u64)
        ensures
            r == ring_key(*self),
    {
        match self {
            VirtioGpuRing::Global => 0,
            VirtioGpuRing::ContextSpecific { ctx_id, ring_idx } => 1 + *ctx_id as u64 * 256
                + *ring_idx as u64,
        }
    }

    /// `global`, or the context and the ring.
    pub open spec fn text(self) -> Seq<char> {
        match self {
            VirtioGpuRing::Global => "global"@,
            VirtioGpuRing::ContextSpecific { ctx_id, ring_idx } => "ctx"@ + text::decimal(
                ctx_id as nat,
            ) + "/r"@ + text::decimal(ring_idx as nat),
        }
    }
}

impl FenceDescriptor {
    /// The completion of fence `id` on `ring` gives this descriptor back.
    pub open spec fn done_by(self, ring: VirtioGpuRing, id: u64) -> bool {
        self.ring == ring && self.fence_id <= id
    }

    /// The ring, the fence and how long the descriptor has waited.
    pub open spec fn text(self, now_ns: u64) -> Seq<char> {
        let waited = if now_ns > self.created_ns {
            (now_ns - self.created_ns) as nat
        } else {
            0
        };
        self.ring.text() + "#"@ + text::decimal(self.fence_id as nat) + ":"@ + text::decimal(
            waited / 1_000_000,
        ) + "ms"@
    }
}

/// The first `n` descriptors' texts, a space between.
pub open spec fn list_text(descs: Seq<FenceDescriptor>, n: nat, now_ns: u64) -> Seq<char>
    decreases n,
{
    if n == 0 {
        Seq::empty()
    } else if n == 1 {
        descs[0].text(now_ns)
    } else {
        list_text(descs, (n - 1) as nat, now_ns) + " "@ + descs[n - 1].text(now_ns)
    }
}

/// The outstanding descriptors in one line: how many, and the first eight of them.
pub open spec fn summary_text(descs: Seq<FenceDescriptor>, now_ns: u64) -> Seq<char> {
    if descs.len() == 0 {
        "0"@
    } else {
        let shown = if descs.len() > 8 {
            8
        } else {
            descs.len()
        };
        let tail = if descs.len() > 8 {
            " …]"@
        } else {
            "]"@
        };
        text::decimal(descs.len()) + " ["@ + list_text(descs, shown, now_ns) + tail
    }
}

fn put_desc(out: &mut String, desc: &FenceDescriptor, now_ns: u64)
    ensures
        final(out)@ == old(out)@ + desc.text(now_ns),
{
    match desc.ring {
        VirtioGpuRing::Global => {
            out.append("global");
        },
        VirtioGpuRing::ContextSpecific { ctx_id, ring_idx } => {
            out.append("ctx");
            put_decimal(out, ctx_id as u64);
            out.append("/r");
            put_decimal(out, ring_idx as u64);
        },
    }
    assert(out@ =~= old(out)@ + desc.ring.text());
    out.append("#");
    put_decimal(out, desc.fence_id);
    out.append(":");
    put_decimal(out, now_ns.saturating_sub(desc.created_ns) / 1_000_000);
    out.append("ms");
    assert(out@ =~= old(out)@ + desc.text(now_ns));
}

impl Default for FenceState {
    fn default() -> (r: Self)
        ensures
            r.pending() == Seq::<FenceDescriptor>::empty(),
            forall|ring: VirtioGpuRing| #[trigger] r.watermark(ring) == 0,
    {
        FenceState { descs: Vec::new(), completed_fences: BTreeMap::new() }
    }
}

impl FenceState {
    /// The descriptors that wait for a fence, in the order they were parked.
    pub closed spec fn pending(self) -> Seq<FenceDescriptor> {
        self.descs@
    }

    /// The highest fence known to have completed on `ring`.
    pub closed spec fn watermark(self, ring: VirtioGpuRing) -> u64 {
        if self.completed_fences@.contains_key(ring_key(ring)) {
            self.completed_fences@[ring_key(ring)]
        } else {
            0
        }
    }

    /// No ring but `ring` moved, and that one to at least `id`.
    pub open spec fn raised(self, after: Self, ring: VirtioGpuRing, id: u64) -> bool {
        forall|r: VirtioGpuRing| #[trigger]
            after.watermark(r) == if r == ring {
                larger(self.watermark(ring), id)
            } else {
                self.watermark(r)
            }
    }

    /// The highest fence known to have completed on `ring`.
    pub fn completed(&self, ring: &VirtioGpuRing) -> (r: u64)
        ensures
            r == self.watermark(*ring),
    {
        match ordered::get(&self.completed_fences, ring.key()) {
            Some(v) => *v,
            None => 0,
        }
    }

    /// Raises a ring's watermark; it never falls, so a fence that completes out of order cannot
    /// strand a later one.
    fn raise(&mut self, ring: VirtioGpuRing, id: u64)
        ensures
            final(self).pending() == old(self).pending(),
            old(self).raised(*final(self), ring, id),
    {
        let was: u64 = self.completed(&ring);
        let now: u64 = if was >= id {
            was
        } else {
            id
        };
        ordered::insert(&mut self.completed_fences, ring.key(), now);
        assert forall|r: VirtioGpuRing| #[trigger]
            self.watermark(r) == if r == ring {
                larger(old(self).watermark(ring), id)
            } else {
                old(self).watermark(r)
            } by {
            lemma_ring_key_injective(r, ring);
        }
    }

    /// How many descriptors wait for a fence.
    pub fn outstanding(&self) -> (n: usize)
        ensures
            n == self.pending().len(),
    {
        self.descs.len()
    }

    /// The outstanding descriptors in one line: how many there are, and the ring, the fence and
    /// the age of the first eight.
    pub fn outstanding_summary(&self, now_ns: u64) -> (r: String)
        ensures
            r@ == summary_text(self.pending(), now_ns),
    {
        let n: usize = self.descs.len();
        let mut out: String = String::new();
        if n == 0 {
            out.append("0");
            assert(out@ =~= "0"@);
            return out;
        }
        put_decimal(&mut out, n as u64);
        out.append(" [");
        let ghost head = out@;
        assert(head =~= text::decimal(n as nat) + " ["@);
        let shown: usize = if n > 8 {
            8
        } else {
            n
        };
        let mut i: usize = 0;
        assert(out@ =~= head + list_text(self.descs@, 0, now_ns));
        while i < shown
            invariant
                i <= shown <= self.descs@.len(),
                out@ == head + list_text(self.descs@, i as nat, now_ns),
            decreases shown - i,
        {
            let ghost before = out@;
            if i > 0 {
                out.append(" ");
            }
            put_desc(&mut out, &self.descs[i], now_ns);
            i = i + 1;
            assert(out@ =~= head + list_text(self.descs@, i as nat, now_ns));
        }
        if n > 8 {
            out.append(" …]");
        } else {
            out.append("]");
        }
        assert(out@ =~= summary_text(self.descs@, now_ns));
        out
    }

    /// Parks a descriptor until its fence completes. Returns true, and parks nothing, when the
    /// fence has already completed: the descriptor then goes back to the guest at once.
    pub fn process_fence(
        &mut self,
        ring: VirtioGpuRing,
        fence_id: u64,
        desc_index: u16,
        len: u32,
        now_ns: u64,
    ) -> (done: bool)
        ensures
            done == (fence_id <= old(self).watermark(ring)),
            done ==> final(self).pending() == old(self).pending(),
            !done ==> final(self).pending() == old(self).pending().push(
                FenceDescriptor { ring, fence_id, desc_index, len, created_ns: now_ns },
            ),
            forall|r: VirtioGpuRing| #[trigger]
                final(self).watermark(r) == old(self).watermark(r),
    {
        if fence_id > self.completed(&ring) {
            self.descs.push(
                FenceDescriptor { ring, fence_id, desc_index, len, created_ns: now_ns },
            );
            false
        } else {
            true
        }
    }

    /// A fence completed: gives back every descriptor of its ring that waited for it or for an
    /// earlier one, as index and length in the order they were parked, and raises the ring's
    /// watermark.
    pub fn complete(&mut self, fence: &RendererFence) -> (retired: Vec<(u16, u32)>)
        ensures
            retired@ == old(self).pending().filter(
                |d: FenceDescriptor| d.done_by(ring_of(*fence), fence.fence_id),
            ).map_values(|d: FenceDescriptor| (d.desc_index, d.len)),
            final(self).pending() == old(self).pending().filter(
                |d: FenceDescriptor| !d.done_by(ring_of(*fence), fence.fence_id),
            ),
            old(self).raised(*final(self), ring_of(*fence), fence.fence_id),
            forall|i: int|
                0 <= i < old(self).pending().len() ==> final(self).pending().contains(
                    #[trigger] old(self).pending()[i],
                ) == match old(self).pending()[i].ring {
                    VirtioGpuRing::Global => fence.flags & 2 != 0
                        || old(self).pending()[i].fence_id > fence.fence_id,
                    VirtioGpuRing::ContextSpecific { ctx_id, ring_idx } => fence.flags & 2 == 0
                        || ctx_id != fence.ctx_id || ring_idx != fence.ring_idx || old(
                        self,
                    ).pending()[i].fence_id > fence.fence_id,
                },
    {
        let ring: VirtioGpuRing = fence.ring();
        let ghost all = self.descs@;
        let ghost done = |d: FenceDescriptor| d.done_by(ring_of(*fence), fence.fence_id);
        let ghost open = |d: FenceDescriptor| !d.done_by(ring_of(*fence), fence.fence_id);
        let ghost out = |d: FenceDescriptor| (d.desc_index, d.len);
        let mut retired: Vec<(u16, u32)> = Vec::new();
        let mut left: Vec<FenceDescriptor> = Vec::new();
        let mut i: usize = 0;
        proof {
            reveal(Seq::filter);
            assert(all.take(0) =~= Seq::empty());
            assert(retired@ =~= all.take(0).filter(done).map_values(out));
            assert(left@ =~= all.take(0).filter(open));
        }
        while i < self.descs.len()
            invariant
                i <= self.descs@.len(),
                *self == *old(self),
                all == self.descs@,
                ring == ring_of(*fence),
                done == (|d: FenceDescriptor| d.done_by(ring_of(*fence), fence.fence_id)),
                open == (|d: FenceDescriptor| !d.done_by(ring_of(*fence), fence.fence_id)),
                out == (|d: FenceDescriptor| (d.desc_index, d.len)),
                retired@ == all.take(i as int).filter(done).map_values(out),
                left@ == all.take(i as int).filter(open),
            decreases self.descs@.len() - i,
        {
            let d: FenceDescriptor = self.descs[i];
            proof {
                reveal(Seq::filter);
                assert(all.take(i + 1).drop_last() =~= all.take(i as int));
                assert(all.take(i + 1).last() == d);
            }
            if d.ring == ring && d.fence_id <= fence.fence_id {
                retired.push((d.desc_index, d.len));
                assert(all.take(i as int).filter(done).push(d).map_values(out) =~= all.take(
                    i as int,
                ).filter(done).map_values(out).push(out(d)));
            } else {
                left.push(d);
            }
            i = i + 1;
        }
        assert(all.take(all.len() as int) =~= all);
        self.descs = left;
        self.raise(ring, fence.fence_id);
        proof {
            law_completion_stays_on_its_ring(all, *fence);
        }
        retired
    }

    /// Forgets every descriptor and every watermark.
    pub fn clear(&mut self)
        ensures
            final(self).pending() == Seq::<FenceDescriptor>::empty(),
            forall|r: VirtioGpuRing| #[trigger] final(self).watermark(r) == 0,
    {
        self.descs.clear();
        self.completed_fences.clear();
    }
}

/// Marks a fence as completed without a renderer to complete it: what waits for it later does not
/// wait.
pub fn mark_fence_completed_sync(fence_state: &mut FenceState, fence: &RendererFence)
    ensures
        final(fence_state).pending() == old(fence_state).pending(),
        old(fence_state).raised(*final(fence_state), ring_of(*fence), fence.fence_id),
{
    fence_state.raise(fence.ring(), fence.fence_id);
}

/// What a completed fence is.
#[derive(Clone, Copy, PartialEq, Eq, Structural, Debug)]
pub enum Completion {
    /// The host's own present fence; its id is a parked frame's cookie.
    Present(u64),
    /// A guest fence to retire.
    Guest,
    /// A guest fence of a device that is not active: there is nothing to retire into.
    Dropped,
}

pub open spec fn completion_of(fence: RendererFence, active: bool) -> Completion {
    if fence.flags & VIRTIO_GPU_FLAG_INFO_RING_IDX != 0 && fence.ring_idx == PRESENT_RING {
        Completion::Present(fence.fence_id)
    } else if active {
        Completion::Guest
    } else {
        Completion::Dropped
    }
}

/// Tells a completed present fence from a guest fence, and whether the latter can be retired.
pub fn classify_completion(fence: &RendererFence, active: bool) -> (r: Completion)
    ensures
        r == completion_of(*fence, active),
{
    if fence.flags & VIRTIO_GPU_FLAG_INFO_RING_IDX != 0 && fence.ring_idx == PRESENT_RING {
        Completion::Present(fence.fence_id)
    } else if active {
        Completion::Guest
    } else {
        Completion::Dropped
    }
}

/// Whether to interrupt the guest: something was given back, and the guest waits for it. A queue
/// that cannot say is taken to wait.
pub fn interrupt_wanted(used_any: bool, needs_notification: Option<bool>) -> (r: bool)
    ensures
        r == (used_any && needs_notification != Some(false)),
{
    used_any && match needs_notification {
        Some(n) => n,
        None => true,
    }
}

/// After a fence completes nothing that waited for it, or for an earlier fence of its ring, still
/// waits; what waited for anything else does.
pub proof fn law_completion_retires_the_ring(
    before: Seq<FenceDescriptor>,
    ring: VirtioGpuRing,
    id: u64,
)
    ensures
        ({
            let after = before.filter(|d: FenceDescriptor| !d.done_by(ring, id));
            &&& forall|i: int|
                0 <= i < after.len() ==> !(#[trigger] after[i]).done_by(ring, id)
            &&& forall|i: int|
                0 <= i < before.len() && !(#[trigger] before[i]).done_by(ring, id)
                    ==> after.contains(before[i])
        }),
{
    let open = |d: FenceDescriptor| !d.done_by(ring, id);
    let after = before.filter(open);
    assert forall|i: int| 0 <= i < after.len() implies !(#[trigger] after[i]).done_by(
        ring,
        id,
    ) by {
        before.lemma_filter_pred(open, i);
    }
    assert forall|i: int| 0 <= i < before.len() && !(#[trigger] before[i]).done_by(
        ring,
        id,
    ) implies after.contains(before[i]) by {
        before.lemma_filter_contains(open, i);
    }
}

/// A completed fence gives back exactly the descriptors of its own ring, up to its own number: on
/// the device's ring if the fence names none, else on the ring of that number in that context. A
/// descriptor of any other ring, or of a later fence, waits on.
pub proof fn law_completion_stays_on_its_ring(before: Seq<FenceDescriptor>, fence: RendererFence)
    ensures
        ({
            let id = fence.fence_id;
            let gone = before.filter(|d: FenceDescriptor| d.done_by(ring_of(fence), id));
            let after = before.filter(|d: FenceDescriptor| !d.done_by(ring_of(fence), id));
            &&& forall|i: int|
                0 <= i < before.len() ==> after.contains(#[trigger] before[i])
                    == match before[i].ring {
                    VirtioGpuRing::Global => fence.flags & 2 != 0 || before[i].fence_id > id,
                    VirtioGpuRing::ContextSpecific { ctx_id, ring_idx } => fence.flags & 2 == 0
                        || ctx_id != fence.ctx_id || ring_idx != fence.ring_idx
                        || before[i].fence_id > id,
                }
            &&& forall|i: int|
                0 <= i < gone.len() ==> {
                    &&& before.contains(#[trigger] gone[i])
                    &&& gone[i].fence_id <= id
                    &&& match gone[i].ring {
                        VirtioGpuRing::Global => fence.flags & 2 == 0,
                        VirtioGpuRing::ContextSpecific { ctx_id, ring_idx } => fence.flags & 2 != 0
                            && ctx_id == fence.ctx_id && ring_idx == fence.ring_idx,
                    }
                }
            &&& gone.len() + after.len() == before.len()
        }),
{
    let ring = ring_of(fence);
    let id = fence.fence_id;
    let done = |d: FenceDescriptor| d.done_by(ring, id);
    let open = |d: FenceDescriptor| !d.done_by(ring, id);
    let gone = before.filter(done);
    let after = before.filter(open);
    assert forall|i: int| 0 <= i < before.len() implies after.contains(#[trigger] before[i])
        == !before[i].done_by(ring, id) by {
        if open(before[i]) {
            before.lemma_filter_contains(open, i);
        } else if after.contains(before[i]) {
            let k = choose|k: int| 0 <= k < after.len() && after[k] == before[i];
            before.lemma_filter_pred(open, k);
        }
    }
    assert forall|i: int| 0 <= i < gone.len() implies before.contains(#[trigger] gone[i])
        && gone[i].done_by(ring, id) by {
        before.lemma_filter_pred(done, i);
        before.lemma_filter_contains_rev(done, gone[i]);
    }
    lemma_filter_parts(before, done, open);
}

proof fn lemma_filter_parts(
    s: Seq<FenceDescriptor>,
    done: spec_fn(FenceDescriptor) -> bool,
    open: spec_fn(FenceDescriptor) -> bool,
)
    requires
        forall|d: FenceDescriptor| #[trigger] done(d) == !open(d),
    ensures
        s.filter(done).len() + s.filter(open).len() == s.len(),
    decreases s.len(),
{
    reveal(Seq::filter);
    if s.len() > 0 {
        lemma_filter_parts(s.drop_last(), done, open);
        assert(done(s.last()) == !open(s.last()));
    }
}

/// A descriptor whose fence is at or below one that completed on the same ring goes back at once;
/// one on another ring, or of a later fence, does not on that account.
pub proof fn law_completed_fence_is_not_waited_for(
    a: FenceState,
    b: FenceState,
    done: RendererFence,
    asked: RendererFence,
)
    requires
        a.raised(b, ring_of(done), done.fence_id),
        forall|r: VirtioGpuRing| #[trigger] a.watermark(r) == 0,
        asked.fence_id > 0,
    ensures
        asked.fence_id <= b.watermark(ring_of(asked)) <==> {
            &&& asked.fence_id <= done.fence_id
            &&& (asked.flags & 2 == 0) == (done.flags & 2 == 0)
            &&& asked.flags & 2 != 0 ==> asked.ctx_id == done.ctx_id && asked.ring_idx
                == done.ring_idx
        },
{
    assert(a.watermark(ring_of(asked)) == 0);
    assert(a.watermark(ring_of(done)) == 0);
}

/// The renderer's answer to the host's own present is never taken for a guest's fence, nor the
/// other way round: it is the one on a context's ring 63. A guest's fence is retired exactly while
/// the device is active.
pub proof fn law_present_fences_are_told_apart(fence: RendererFence, active: bool)
    ensures
        (completion_of(fence, active) matches Completion::Present(id) ==> id == fence.fence_id),
        completion_of(fence, active) is Present <==> fence.flags & 2 != 0 && fence.ring_idx == 63,
        completion_of(fence, active) is Guest ==> active,
        completion_of(fence, active) is Dropped ==> !active,
{
}

/// The line on the outstanding descriptors says how many there are and shows no more than eight.
pub proof fn law_summary_counts(descs: Seq<FenceDescriptor>, now_ns: u64)
    ensures
        descs.len() == 0 ==> summary_text(descs, now_ns) == "0"@,
        descs.len() > 0 ==> text::decimal(descs.len()).is_prefix_of(summary_text(descs, now_ns)),
        1 <= descs.len() <= 8 ==> summary_text(descs, now_ns) == text::decimal(descs.len()) + " ["@
            + list_text(descs, descs.len(), now_ns) + "]"@,
        descs.len() > 8 ==> summary_text(descs, now_ns) == text::decimal(descs.len()) + " ["@
            + list_text(descs, 8, now_ns) + " …]"@,
{
    let n = text::decimal(descs.len());
    let s = summary_text(descs, now_ns);
    if descs.len() > 0 {
        assert(s.take(n.len() as int) =~= n);
    }
}

/// A fence that completed before its descriptor arrives does not park it, whatever completed in
/// between: watermarks only rise.
pub proof fn law_watermark_never_falls(
    a: FenceState,
    b: FenceState,
    ring: VirtioGpuRing,
    id: u64,
    other: VirtioGpuRing,
)
    requires
        a.raised(b, ring, id),
    ensures
        b.watermark(other) >= a.watermark(other),
        b.watermark(ring) >= id,
{
}

/// To complete a fence twice is to complete it once: the second time no descriptor goes back, and
/// no watermark moves.
pub proof fn law_second_completion_does_nothing(
    pending: Seq<FenceDescriptor>,
    a: FenceState,
    b: FenceState,
    c: FenceState,
    ring: VirtioGpuRing,
    id: u64,
    other: VirtioGpuRing,
)
    requires
        a.raised(b, ring, id),
        b.raised(c, ring, id),
    ensures
        ({
            let once = pending.filter(|d: FenceDescriptor| !d.done_by(ring, id));
            &&& once.filter(|d: FenceDescriptor| d.done_by(ring, id)) == Seq::<
                FenceDescriptor,
            >::empty()
            &&& once.filter(|d: FenceDescriptor| !d.done_by(ring, id)) == once
        }),
        c.watermark(other) == b.watermark(other),
{
    let done = |d: FenceDescriptor| d.done_by(ring, id);
    let open = |d: FenceDescriptor| !d.done_by(ring, id);
    let once = pending.filter(open);
    assert forall|i: int| 0 <= i < once.len() implies !(#[trigger] once[i]).done_by(ring, id) by {
        pending.lemma_filter_pred(open, i);
    }
    lemma_filter_of_kept(once, done, open);
}

proof fn lemma_filter_of_kept(
    s: Seq<FenceDescriptor>,
    done: spec_fn(FenceDescriptor) -> bool,
    open: spec_fn(FenceDescriptor) -> bool,
)
    requires
        forall|i: int| 0 <= i < s.len() ==> !done(#[trigger] s[i]) && open(s[i]),
    ensures
        s.filter(done) == Seq::<FenceDescriptor>::empty(),
        s.filter(open) == s,
    decreases s.len(),
{
    reveal(Seq::filter);
    if s.len() > 0 {
        let rest = s.drop_last();
        assert forall|i: int| 0 <= i < rest.len() implies !done(#[trigger] rest[i]) && open(
            rest[i],
        ) by {
            assert(rest[i] == s[i]);
        }
        lemma_filter_of_kept(rest, done, open);
        assert(!done(s[s.len() - 1]) && open(s[s.len() - 1]));
        assert(rest.push(s.last()) =~= s);
    }
}

} // verus!
