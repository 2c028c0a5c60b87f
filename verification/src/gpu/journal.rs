//! The re-creation journal: the ops that arrive on the control queue around the renderer's object
//! world, kept so that a restore can issue them again.
//!
//! Destroys prune, they are not retained, so the journal's size is bounded by the live contexts
//! and resources, not by uptime.
use crate::gpu::protocol::GpuResponse;
use crate::gpu::trace;
use crate::gpu::trace::GpuTraceStats;
use crate::gpu_snapshot;
use crate::gpu_snapshot::{
    GpuJournalEntry, GpuJournalEntryView, GpuJournalOp, GpuJournalOpView,
};
use vstd::prelude::*;

verus! {

pub struct GpuJournal {
    entries: Vec<GpuJournalEntry>,
    seq_next: u64,
    recorded: u64,
    pruned: u64,
    trace: GpuTraceStats,
}

/// What a journal holds.
pub struct JournalView {
    pub entries: Seq<GpuJournalEntryView>,
    /// The number the next entry gets.
    pub seq_next: nat,
    /// How many entries were ever recorded, and how many of them were pruned.
    pub recorded: nat,
    pub pruned: nat,
    pub trace: GpuTraceStats,
}

impl View for GpuJournal {
    type V = JournalView;

    closed spec fn view(&self) -> JournalView {
        JournalView {
            entries: gpu_snapshot::ops_view(self.entries@),
            seq_next: self.seq_next as nat,
            recorded: self.recorded as nat,
            pruned: self.pruned as nat,
            trace: self.trace,
        }
    }
}

/// Which ops a guest command makes pointless to re-create.
#[derive(Clone, Copy, PartialEq, Eq, Structural, Debug)]
pub enum Dead {
    /// A context's creation and its attaches.
    Context(u32),
    /// Everything that names a resource.
    Resource(u32),
    /// A blob's mapping.
    Mapping(u32),
    /// A resource's backing.
    Backing(u32),
    /// A scanout's binding to a blob.
    ScanoutBlob(u32),
    /// A scanout's binding to a resource that is not a blob.
    Scanout(u32),
}

impl Dead {
    /// The op is one of these.
    pub open spec fn covers(self, op: GpuJournalOpView) -> bool {
        match self {
            Dead::Context(c) => match op {
                GpuJournalOpView::CtxCreate { ctx_id, .. } => ctx_id == c,
                GpuJournalOpView::CtxAttachResource { ctx_id, .. } => ctx_id == c,
                _ => false,
            },
            Dead::Resource(r) => names_resource(op, r),
            Dead::Mapping(r) => op matches GpuJournalOpView::MapBlob { resource_id, .. }
                && resource_id == r,
            Dead::Backing(r) => op matches GpuJournalOpView::AttachBacking { resource_id, .. }
                && resource_id == r,
            Dead::ScanoutBlob(s) => op matches GpuJournalOpView::SetScanoutBlob { scanout_id, .. }
                && scanout_id == s,
            Dead::Scanout(s) => op matches GpuJournalOpView::SetScanout { scanout_id, .. }
                && scanout_id == s,
        }
    }

    fn is_dead(self, op: &GpuJournalOp) -> (r: bool)
        ensures
            r == self.covers(op@),
    {
        match self {
            Dead::Context(c) => match op {
                GpuJournalOp::CtxCreate { ctx_id, .. } => *ctx_id == c,
                GpuJournalOp::CtxAttachResource { ctx_id, .. } => *ctx_id == c,
                _ => false,
            },
            Dead::Resource(r) => match op {
                GpuJournalOp::CtxCreate { .. } => false,
                GpuJournalOp::CtxAttachResource { resource_id, .. } => *resource_id == r,
                GpuJournalOp::CreateBlob { resource_id, .. } => *resource_id == r,
                GpuJournalOp::MapBlob { resource_id, .. } => *resource_id == r,
                GpuJournalOp::SetScanoutBlob { resource_id, .. } => *resource_id == r,
                GpuJournalOp::ResourceCreate3d { resource_id, .. } => *resource_id == r,
                GpuJournalOp::ResourceCreate2d { resource_id, .. } => *resource_id == r,
                GpuJournalOp::AttachBacking { resource_id, .. } => *resource_id == r,
                GpuJournalOp::SetScanout { resource_id, .. } => *resource_id == r,
            },
            Dead::Mapping(r) => match op {
                GpuJournalOp::MapBlob { resource_id, .. } => *resource_id == r,
                _ => false,
            },
            Dead::Backing(r) => match op {
                GpuJournalOp::AttachBacking { resource_id, .. } => *resource_id == r,
                _ => false,
            },
            Dead::ScanoutBlob(s) => match op {
                GpuJournalOp::SetScanoutBlob { scanout_id, .. } => *scanout_id == s,
                _ => false,
            },
            Dead::Scanout(s) => match op {
                GpuJournalOp::SetScanout { scanout_id, .. } => *scanout_id == s,
                _ => false,
            },
        }
    }
}

/// The op creates, maps, attaches, backs or scans out resource `r`.
pub open spec fn names_resource(op: GpuJournalOpView, r: u32) -> bool {
    match op {
        GpuJournalOpView::CtxCreate { .. } => false,
        GpuJournalOpView::CtxAttachResource { resource_id, .. } => resource_id == r,
        GpuJournalOpView::CreateBlob { resource_id, .. } => resource_id == r,
        GpuJournalOpView::MapBlob { resource_id, .. } => resource_id == r,
        GpuJournalOpView::SetScanoutBlob { resource_id, .. } => resource_id == r,
        GpuJournalOpView::ResourceCreate3d { resource_id, .. } => resource_id == r,
        GpuJournalOpView::ResourceCreate2d { resource_id, .. } => resource_id == r,
        GpuJournalOpView::AttachBacking { resource_id, .. } => resource_id == r,
        GpuJournalOpView::SetScanout { resource_id, .. } => resource_id == r,
    }
}

/// The op records that context `c` has resource `r` attached, or had.
pub open spec fn attaches(op: GpuJournalOpView, c: u32, r: u32) -> bool {
    op matches GpuJournalOpView::CtxAttachResource { ctx_id, resource_id, .. } && ctx_id == c
        && resource_id == r
}

/// The first entry at or after `from` that records this attach.
pub open spec fn attach_at(entries: Seq<GpuJournalEntryView>, c: u32, r: u32, from: int) -> Option<
    int,
>
    decreases entries.len() - from,
{
    if from < 0 || from >= entries.len() {
        None
    } else if attaches(entries[from].op, c, r) {
        Some(from)
    } else {
        attach_at(entries, c, r, from + 1)
    }
}

/// The blob that unref of `r` releases: the context and the id of the last recorded create whose
/// blob has an id.
pub open spec fn pinned_blob(entries: Seq<GpuJournalEntryView>, r: u32) -> Option<(u32, u64)>
    decreases entries.len(),
{
    if entries.len() == 0 {
        None
    } else {
        match entries.last().op {
            GpuJournalOpView::CreateBlob { ctx_id, resource_id, blob_id, .. } => if resource_id
                == r && blob_id != 0 {
                Some((ctx_id, blob_id))
            } else {
                pinned_blob(entries.drop_last(), r)
            },
            _ => pinned_blob(entries.drop_last(), r),
        }
    }
}

impl JournalView {
    /// The trace gauges say what the journal holds.
    pub open spec fn traced(self) -> Self {
        JournalView {
            trace: GpuTraceStats {
                journal_live: self.entries.len() as u64,
                journal_recorded: self.recorded as u64,
                journal_pruned: self.pruned as u64,
                ..self.trace
            },
            ..self
        }
    }

    /// The same journal with other counters.
    pub open spec fn with_trace(self, trace: GpuTraceStats) -> Self {
        JournalView { trace, ..self }
    }

    /// `op` recorded at the end, behind wire entries up to `vkr_seq`.
    pub open spec fn push(self, op: GpuJournalOpView, vkr_seq: u64) -> Self {
        JournalView {
            entries: self.entries.push(
                GpuJournalEntryView { seq: self.seq_next as u64, vkr_seq, op },
            ),
            seq_next: self.seq_next + 1,
            recorded: self.recorded + 1,
            ..self
        }.traced()
    }

    /// The entries that `dead` covers dropped, the others kept in order.
    pub open spec fn prune(self, dead: Dead) -> Self {
        let kept = self.entries.filter(|e: GpuJournalEntryView| !dead.covers(e.op));
        JournalView {
            entries: kept,
            pruned: (self.pruned + (self.entries.len() - kept.len())) as nat,
            ..self
        }.traced()
    }

    /// The attach record of `c` and `r` marked, where there is one.
    pub open spec fn mark(self, c: u32, r: u32, detached: bool) -> Self {
        match attach_at(self.entries, c, r, 0) {
            Some(i) => JournalView {
                entries: self.entries.update(
                    i,
                    GpuJournalEntryView {
                        op: GpuJournalOpView::CtxAttachResource {
                            ctx_id: c,
                            resource_id: r,
                            detached,
                        },
                        ..self.entries[i]
                    },
                ),
                ..self
            },
            None => self,
        }
    }

    /// Every entry's number is below the next one, and no more entries are live than were
    /// recorded and not pruned.
    pub open spec fn wf(self) -> bool {
        &&& forall|i: int| 0 <= i < self.entries.len() ==> (#[trigger] self.entries[i]).seq
            < self.seq_next
        &&& self.pruned + self.entries.len() <= self.recorded
    }

    /// The counters can still count one more entry.
    pub open spec fn has_room(self) -> bool {
        &&& self.seq_next < u64::MAX
        &&& self.recorded < u64::MAX
    }

    /// The entries are numbered in increasing order.
    pub open spec fn ordered(self) -> bool {
        forall|i: int, j: int|
            0 <= i < j < self.entries.len() ==> (#[trigger] self.entries[i]).seq < (
            #[trigger] self.entries[j]).seq
    }
}

impl GpuJournal {
    /// The journal of a session on which nothing was done.
    pub fn new(trace: GpuTraceStats) -> (r: Self)
        ensures
            r@ == (JournalView {
                entries: Seq::empty(),
                seq_next: 1,
                recorded: 0,
                pruned: 0,
                trace,
            }),
            r@.wf(),
    {
        let r = GpuJournal { entries: Vec::new(), seq_next: 1, recorded: 0, pruned: 0, trace };
        assert(gpu_snapshot::ops_view(r.entries@) =~= Seq::empty());
        r
    }

    /// Brings the trace gauges up to the journal.
    fn sync_trace(&mut self)
        ensures
            final(self)@ == old(self)@.traced(),
    {
        self.trace.journal_live = self.entries.len() as u64;
        self.trace.journal_recorded = self.recorded;
        self.trace.journal_pruned = self.pruned;
    }

    fn push(&mut self, op: GpuJournalOp)
        requires
            old(self)@.wf(),
            old(self)@.has_room(),
        ensures
            final(self)@ == old(self)@.push(op@, 0),
            final(self)@.wf(),
    {
        self.push_fenced(op, 0);
    }

    fn push_fenced(&mut self, op: GpuJournalOp, vkr_seq: u64)
        requires
            old(self)@.wf(),
            old(self)@.has_room(),
        ensures
            final(self)@ == old(self)@.push(op@, vkr_seq),
            final(self)@.wf(),
    {
        let seq: u64 = self.seq_next;
        self.seq_next = self.seq_next + 1;
        let entry = GpuJournalEntry { seq, vkr_seq, op };
        self.entries.push(entry);
        self.recorded = self.recorded + 1;
        assert(gpu_snapshot::ops_view(self.entries@) =~= gpu_snapshot::ops_view(
            old(self).entries@,
        ).push(entry@));
        self.sync_trace();
    }

    fn prune(&mut self, dead: Dead)
        requires
            old(self)@.wf(),
        ensures
            final(self)@ == old(self)@.prune(dead),
            final(self)@.wf(),
    {
        let mut live: Vec<GpuJournalEntry> = Vec::new();
        let mut entries: Vec<GpuJournalEntry> = Vec::new();
        std::mem::swap(&mut self.entries, &mut entries);
        let ghost all = gpu_snapshot::ops_view(entries@);
        let ghost keep = |e: GpuJournalEntryView| !dead.covers(e.op);
        let before: usize = entries.len();
        assert(all.take(0) =~= Seq::empty());
        assert(gpu_snapshot::ops_view(live@) =~= Seq::empty());
        proof {
            reveal(Seq::filter);
        }
        for e in it: entries
            invariant
                it.seq() == entries@,
                all == gpu_snapshot::ops_view(entries@),
                keep == (|e: GpuJournalEntryView| !dead.covers(e.op)),
                gpu_snapshot::ops_view(live@) == all.take(it.index()).filter(keep),
                live@.len() <= it.index(),
        {
            let ghost was = live@;
            let ghost i = it.index();
            let ghost ev = e@;
            proof {
                reveal(Seq::filter);
                assert(all.take(i + 1).drop_last() =~= all.take(i));
                assert(all.take(i + 1).last() == ev);
            }
            if !dead.is_dead(&e.op) {
                live.push(e);
                assert(gpu_snapshot::ops_view(live@) =~= gpu_snapshot::ops_view(was).push(ev));
            }
        }
        assert(all.take(all.len() as int) =~= all);
        self.pruned = self.pruned + (before - live.len()) as u64;
        self.entries = live;
        proof {
            old(self)@.lemma_prune_wf(dead);
        }
        self.sync_trace();
    }
}

impl JournalView {
    proof fn lemma_prune_wf(self, dead: Dead)
        requires
            self.wf(),
        ensures
            self.prune(dead).wf(),
            self.prune(dead).entries.len() <= self.entries.len(),
    {
        let keep = |e: GpuJournalEntryView| !dead.covers(e.op);
        self.entries.lemma_filter_len(keep);
        assert forall|i: int| 0 <= i < self.prune(dead).entries.len() implies (
        #[trigger] self.prune(dead).entries[i]).seq < self.seq_next by {
            self.entries.lemma_filter_contains_rev(keep, self.prune(dead).entries[i]);
        }
    }
}

/// A guest command as the journal sees it.
pub enum JournalStep {
    CtxCreate { ctx_id: u32, context_init: u32, name: Option<Seq<char>> },
    CtxDestroy { ctx_id: u32 },
    CtxAttach { ctx_id: u32, resource_id: u32 },
    CtxDetach { ctx_id: u32, resource_id: u32 },
    /// A resource create: a blob, or a classic 3D or software-2D resource.
    Create { op: GpuJournalOpView, vkr_seq: u64 },
    ResourceUnref { resource_id: u32 },
    MapBlob { resource_id: u32, offset: u64 },
    UnmapBlob { resource_id: u32 },
    SetScanoutBlob { scanout_id: u32, resource_id: u32, width: u32, height: u32, format: u32 },
    AttachBacking { resource_id: u32, backing: Seq<(u64, usize)> },
    DetachBacking { resource_id: u32 },
    SetScanout { scanout_id: u32, resource_id: u32, width: u32, height: u32 },
    Reset,
}

impl JournalView {
    /// The journal after a command.
    pub open spec fn apply(self, step: JournalStep) -> Self {
        match step {
            JournalStep::CtxCreate { ctx_id, context_init, name } => self.push(
                GpuJournalOpView::CtxCreate { ctx_id, context_init, name },
                0,
            ),
            JournalStep::CtxDestroy { ctx_id } => self.prune(Dead::Context(ctx_id)),
            JournalStep::CtxAttach { ctx_id, resource_id } => if attach_at(
                self.entries,
                ctx_id,
                resource_id,
                0,
            ) is Some {
                self.mark(ctx_id, resource_id, false)
            } else {
                self.push(
                    GpuJournalOpView::CtxAttachResource { ctx_id, resource_id, detached: false },
                    0,
                )
            },
            JournalStep::CtxDetach { ctx_id, resource_id } => self.mark(ctx_id, resource_id, true),
            JournalStep::Create { op, vkr_seq } => self.push(op, vkr_seq),
            JournalStep::ResourceUnref { resource_id } => self.prune(Dead::Resource(resource_id)),
            JournalStep::MapBlob { resource_id, offset } => self.prune(
                Dead::Mapping(resource_id),
            ).push(GpuJournalOpView::MapBlob { resource_id, offset }, 0),
            JournalStep::UnmapBlob { resource_id } => self.prune(Dead::Mapping(resource_id)),
            JournalStep::SetScanoutBlob { scanout_id, resource_id, width, height, format } => {
                let cleared = self.prune(Dead::ScanoutBlob(scanout_id));
                if resource_id == 0 {
                    cleared
                } else {
                    cleared.push(
                        GpuJournalOpView::SetScanoutBlob {
                            scanout_id,
                            resource_id,
                            width,
                            height,
                            format,
                        },
                        0,
                    )
                }
            },
            JournalStep::AttachBacking { resource_id, backing } => self.prune(
                Dead::Backing(resource_id),
            ).push(GpuJournalOpView::AttachBacking { resource_id, backing }, 0),
            JournalStep::DetachBacking { resource_id } => self.prune(Dead::Backing(resource_id)),
            JournalStep::SetScanout { scanout_id, resource_id, width, height } => {
                let cleared = self.prune(Dead::Scanout(scanout_id));
                if resource_id == 0 {
                    cleared
                } else {
                    cleared.push(
                        GpuJournalOpView::SetScanout { scanout_id, resource_id, width, height },
                        0,
                    )
                }
            },
            JournalStep::Reset => JournalView {
                entries: Seq::empty(),
                pruned: self.pruned + self.entries.len(),
                ..self
            }.traced(),
        }
    }
}

impl GpuJournal {
    /// Whether another entry can be numbered and counted.
    pub fn room_left(&self) -> (r: bool)
        ensures
            r == self@.has_room(),
    {
        self.seq_next < u64::MAX && self.recorded < u64::MAX
    }

    /// Replaces the journal with the ops of a replayed snapshot: the re-created world is theirs,
    /// and recording goes on past their highest number.
    pub fn restore_entries(&mut self, entries: Vec<GpuJournalEntry>)
        requires
            old(self)@.wf(),
            forall|i: int| 0 <= i < entries@.len() ==> (#[trigger] entries@[i]).seq < u64::MAX,
            old(self)@.recorded + entries@.len() <= u64::MAX,
        ensures
            final(self)@.entries == gpu_snapshot::ops_view(entries@),
            final(self)@.seq_next == highest_seq(gpu_snapshot::ops_view(entries@)) + 1,
            final(self)@.recorded == old(self)@.recorded + entries@.len(),
            final(self)@.pruned == old(self)@.pruned,
            final(self)@ == (JournalView { trace: old(self)@.trace, ..final(self)@ }).traced(),
            final(self)@.wf(),
    {
        let ghost all = gpu_snapshot::ops_view(entries@);
        let mut top: u64 = 0;
        let mut i: usize = 0;
        assert(all.take(0) =~= Seq::empty());
        while i < entries.len()
            invariant
                i <= entries@.len(),
                all == gpu_snapshot::ops_view(entries@),
                top == highest_seq(all.take(i as int)),
                top < u64::MAX,
                forall|j: int| 0 <= j < entries@.len() ==> (#[trigger] entries@[j]).seq < u64::MAX,
                forall|j: int| 0 <= j < i ==> (#[trigger] all[j]).seq <= top,
            decreases entries@.len() - i,
        {
            assert(all.take(i + 1).drop_last() =~= all.take(i as int));
            assert(all[i as int].seq == entries@[i as int].seq);
            if entries[i].seq > top {
                top = entries[i].seq;
            }
            i = i + 1;
        }
        assert(all.take(all.len() as int) =~= all);
        self.seq_next = top + 1;
        self.recorded = self.recorded + entries.len() as u64;
        self.entries = entries;
        self.sync_trace();
    }

    /// A session reset: the renderer's contexts and resources are gone, nothing is left to
    /// re-create.
    pub fn reset(&mut self)
        requires
            old(self)@.wf(),
        ensures
            final(self)@ == old(self)@.apply(JournalStep::Reset),
            final(self)@.wf(),
    {
        self.pruned = self.pruned + self.entries.len() as u64;
        self.entries.clear();
        assert(gpu_snapshot::ops_view(self.entries@) =~= Seq::empty());
        self.sync_trace();
    }

    pub fn ctx_create(&mut self, ctx_id: u32, context_init: u32, name: Option<String>)
        requires
            old(self)@.wf(),
            old(self)@.has_room(),
        ensures
            final(self)@ == old(self)@.apply(
                JournalStep::CtxCreate {
                    ctx_id,
                    context_init,
                    name: match name {
                        Some(n) => Some(n@),
                        None => None,
                    },
                },
            ),
            final(self)@.wf(),
    {
        self.push(GpuJournalOp::CtxCreate { ctx_id, context_init, name });
    }

    /// A context destroy prunes the context and its attaches; blob resources die by unref.
    pub fn ctx_destroy(&mut self, ctx_id: u32)
        requires
            old(self)@.wf(),
        ensures
            final(self)@ == old(self)@.apply(JournalStep::CtxDestroy { ctx_id }),
            final(self)@.wf(),
    {
        self.prune(Dead::Context(ctx_id));
    }

    /// The place of the attach record of a context and a resource.
    fn attach_index(&self, ctx_id: u32, resource_id: u32) -> (r: Option<usize>)
        ensures
            match r {
                Some(i) => {
                    &&& i < self@.entries.len()
                    &&& attach_at(self@.entries, ctx_id, resource_id, 0) == Some(i as int)
                    &&& attaches(self@.entries[i as int].op, ctx_id, resource_id)
                },
                None => attach_at(self@.entries, ctx_id, resource_id, 0) is None,
            },
    {
        let mut i: usize = 0;
        while i < self.entries.len()
            invariant
                i <= self.entries@.len(),
                attach_at(self@.entries, ctx_id, resource_id, 0) == attach_at(
                    self@.entries,
                    ctx_id,
                    resource_id,
                    i as int,
                ),
            decreases self.entries@.len() - i,
        {
            match &self.entries[i].op {
                GpuJournalOp::CtxAttachResource { ctx_id: c, resource_id: r, .. } => {
                    if *c == ctx_id && *r == resource_id {
                        return Some(i);
                    }
                },
                _ => {},
            }
            i = i + 1;
        }
        None
    }

    /// Marks the attach record of a context and a resource, where there is one.
    fn mark_attach(&mut self, ctx_id: u32, resource_id: u32, detached: bool) -> (found: bool)
        requires
            old(self)@.wf(),
        ensures
            final(self)@ == old(self)@.mark(ctx_id, resource_id, detached),
            final(self)@.wf(),
            found == (attach_at(old(self)@.entries, ctx_id, resource_id, 0) is Some),
    {
        match self.attach_index(ctx_id, resource_id) {
            Some(i) => {
                let seq: u64 = self.entries[i].seq;
                let vkr_seq: u64 = self.entries[i].vkr_seq;
                let entry = GpuJournalEntry {
                    seq,
                    vkr_seq,
                    op: GpuJournalOp::CtxAttachResource { ctx_id, resource_id, detached },
                };
                self.entries.set(i, entry);
                assert(gpu_snapshot::ops_view(self.entries@) =~= gpu_snapshot::ops_view(
                    old(self).entries@,
                ).update(i as int, entry@));
                true
            },
            None => false,
        }
    }

    /// A re-attach reuses the first one's place, so a guest that attaches every frame does not
    /// grow the journal.
    pub fn ctx_attach_resource(&mut self, ctx_id: u32, resource_id: u32)
        requires
            old(self)@.wf(),
            attach_at(old(self)@.entries, ctx_id, resource_id, 0) is None ==> old(self)@.has_room(),
        ensures
            final(self)@ == old(self)@.apply(JournalStep::CtxAttach { ctx_id, resource_id }),
            final(self)@.wf(),
    {
        if !self.mark_attach(ctx_id, resource_id, false) {
            self.push(
                GpuJournalOp::CtxAttachResource { ctx_id, resource_id, detached: false },
            );
        }
    }

    /// A detach marks the attach; the record stays.
    pub fn ctx_detach_resource(&mut self, ctx_id: u32, resource_id: u32)
        requires
            old(self)@.wf(),
        ensures
            final(self)@ == old(self)@.apply(JournalStep::CtxDetach { ctx_id, resource_id }),
            final(self)@.wf(),
    {
        self.mark_attach(ctx_id, resource_id, true);
    }

    pub fn create_blob(
        &mut self,
        ctx_id: u32,
        resource_id: u32,
        blob_mem: u32,
        blob_flags: u32,
        blob_id: u64,
        size: u64,
        backing: Vec<(u64, usize)>,
        vkr_seq: u64,
    )
        requires
            old(self)@.wf(),
            old(self)@.has_room(),
        ensures
            final(self)@ == old(self)@.apply(
                JournalStep::Create {
                    op: GpuJournalOpView::CreateBlob {
                        ctx_id,
                        resource_id,
                        blob_mem,
                        blob_flags,
                        blob_id,
                        size,
                        backing: backing@,
                    },
                    vkr_seq,
                },
            ),
            final(self)@.wf(),
    {
        self.push_fenced(
            GpuJournalOp::CreateBlob {
                ctx_id,
                resource_id,
                blob_mem,
                blob_flags,
                blob_id,
                size,
                backing,
            },
            vkr_seq,
        );
    }

    /// An unref prunes everything that names the resource. Returns the context and the id of the
    /// blob whose pin the caller has to release, where the resource was a blob with an id.
    pub fn resource_unref(&mut self, resource_id: u32) -> (pinned: Option<(u32, u64)>)
        requires
            old(self)@.wf(),
        ensures
            final(self)@ == old(self)@.apply(JournalStep::ResourceUnref { resource_id }),
            final(self)@.wf(),
            pinned == pinned_blob(old(self)@.entries, resource_id),
    {
        let ghost all = self@.entries;
        let mut pinned: Option<(u32, u64)> = None;
        let mut i: usize = 0;
        assert(all.take(0) =~= Seq::empty());
        while i < self.entries.len()
            invariant
                i <= self.entries@.len(),
                self@ == old(self)@,
                all == self@.entries,
                pinned == pinned_blob(all.take(i as int), resource_id),
            decreases self.entries@.len() - i,
        {
            assert(all.take(i + 1).drop_last() =~= all.take(i as int));
            assert(all.take(i + 1).last() == self.entries@[i as int]@);
            match &self.entries[i].op {
                GpuJournalOp::CreateBlob { ctx_id, resource_id: r, blob_id, .. } => {
                    if *r == resource_id && *blob_id != 0 {
                        pinned = Some((*ctx_id, *blob_id));
                    }
                },
                _ => {},
            }
            i = i + 1;
        }
        assert(all.take(all.len() as int) =~= all);
        self.prune(Dead::Resource(resource_id));
        pinned
    }

    pub fn map_blob(&mut self, resource_id: u32, offset: u64)
        requires
            old(self)@.wf(),
            old(self)@.has_room(),
        ensures
            final(self)@ == old(self)@.apply(JournalStep::MapBlob { resource_id, offset }),
            final(self)@.wf(),
    {
        self.prune(Dead::Mapping(resource_id));
        self.push(GpuJournalOp::MapBlob { resource_id, offset });
    }

    pub fn unmap_blob(&mut self, resource_id: u32)
        requires
            old(self)@.wf(),
        ensures
            final(self)@ == old(self)@.apply(JournalStep::UnmapBlob { resource_id }),
            final(self)@.wf(),
    {
        self.prune(Dead::Mapping(resource_id));
    }

    pub fn set_scanout_blob(
        &mut self,
        scanout_id: u32,
        resource_id: u32,
        width: u32,
        height: u32,
        format: u32,
    )
        requires
            old(self)@.wf(),
            resource_id != 0 ==> old(self)@.has_room(),
        ensures
            final(self)@ == old(self)@.apply(
                JournalStep::SetScanoutBlob { scanout_id, resource_id, width, height, format },
            ),
            final(self)@.wf(),
    {
        self.prune(Dead::ScanoutBlob(scanout_id));
        if resource_id != 0 {
            self.push(
                GpuJournalOp::SetScanoutBlob { scanout_id, resource_id, width, height, format },
            );
        }
    }

    pub fn resource_create_3d(
        &mut self,
        resource_id: u32,
        target: u32,
        format: u32,
        bind: u32,
        width: u32,
        height: u32,
        depth: u32,
        array_size: u32,
        last_level: u32,
        nr_samples: u32,
        flags: u32,
    )
        requires
            old(self)@.wf(),
            old(self)@.has_room(),
        ensures
            final(self)@ == old(self)@.apply(
                JournalStep::Create {
                    op: GpuJournalOpView::ResourceCreate3d {
                        resource_id,
                        target,
                        format,
                        bind,
                        width,
                        height,
                        depth,
                        array_size,
                        last_level,
                        nr_samples,
                        flags,
                    },
                    vkr_seq: 0,
                },
            ),
            final(self)@.wf(),
    {
        self.push(
            GpuJournalOp::ResourceCreate3d {
                resource_id,
                target,
                format,
                bind,
                width,
                height,
                depth,
                array_size,
                last_level,
                nr_samples,
                flags,
            },
        );
    }

    pub fn resource_create_2d(&mut self, resource_id: u32, format: u32, width: u32, height: u32)
        requires
            old(self)@.wf(),
            old(self)@.has_room(),
        ensures
            final(self)@ == old(self)@.apply(
                JournalStep::Create {
                    op: GpuJournalOpView::ResourceCreate2d { resource_id, format, width, height },
                    vkr_seq: 0,
                },
            ),
            final(self)@.wf(),
    {
        self.push(GpuJournalOp::ResourceCreate2d { resource_id, format, width, height });
    }

    pub fn attach_backing(&mut self, resource_id: u32, backing: Vec<(u64, usize)>)
        requires
            old(self)@.wf(),
            old(self)@.has_room(),
        ensures
            final(self)@ == old(self)@.apply(
                JournalStep::AttachBacking { resource_id, backing: backing@ },
            ),
            final(self)@.wf(),
    {
        self.prune(Dead::Backing(resource_id));
        self.push(GpuJournalOp::AttachBacking { resource_id, backing });
    }

    pub fn detach_backing(&mut self, resource_id: u32)
        requires
            old(self)@.wf(),
        ensures
            final(self)@ == old(self)@.apply(JournalStep::DetachBacking { resource_id }),
            final(self)@.wf(),
    {
        self.prune(Dead::Backing(resource_id));
    }

    pub fn set_scanout(&mut self, scanout_id: u32, resource_id: u32, width: u32, height: u32)
        requires
            old(self)@.wf(),
            resource_id != 0 ==> old(self)@.has_room(),
        ensures
            final(self)@ == old(self)@.apply(
                JournalStep::SetScanout { scanout_id, resource_id, width, height },
            ),
            final(self)@.wf(),
    {
        self.prune(Dead::Scanout(scanout_id));
        if resource_id != 0 {
            self.push(GpuJournalOp::SetScanout { scanout_id, resource_id, width, height });
        }
    }

    /// The live entries by kind.
    pub fn dump(&self) -> (r: JournalCensus)
        ensures
            r.live == self@.entries.len(),
            r.recorded == self@.recorded,
            r.pruned == self@.pruned,
            census_of(self@.entries) == r@,
    {
        let ghost all = self@.entries;
        let mut c = JournalCensus {
            live: self.entries.len() as u64,
            recorded: self.recorded,
            pruned: self.pruned,
            ctxs: 0,
            blobs: 0,
            maps: 0,
            attaches: 0,
            scanouts: 0,
            classic: 0,
            backings: 0,
            blob_bytes: 0,
        };
        let mut i: usize = 0;
        assert(all.take(0) =~= Seq::empty());
        while i < self.entries.len()
            invariant
                i <= self.entries@.len(),
                all == self@.entries,
                c.live == self.entries@.len(),
                c.recorded == self.recorded,
                c.pruned == self.pruned,
                c@ == census_of(all.take(i as int)),
                c.ctxs <= i,
                c.blobs <= i,
                c.maps <= i,
                c.attaches <= i,
                c.scanouts <= i,
                c.classic <= i,
                c.backings <= i,
                c.blob_bytes <= i * 0xffff_ffff_ffff_ffff,
            decreases self.entries@.len() - i,
        {
            assert(all.take(i + 1).drop_last() =~= all.take(i as int));
            assert(all.take(i + 1).last() == self.entries@[i as int]@);
            assert(i * 0xffff_ffff_ffff_ffff + 0xffff_ffff_ffff_ffff == (i + 1)
                * 0xffff_ffff_ffff_ffff && (i + 1) * 0xffff_ffff_ffff_ffff <= 0x1_0000_0000_0000_0000
                * 0xffff_ffff_ffff_ffff) by (nonlinear_arith)
                requires
                    i < 0xffff_ffff_ffff_ffff,
            ;
            match &self.entries[i].op {
                GpuJournalOp::CtxCreate { .. } => {
                    c.ctxs = c.ctxs + 1;
                },
                GpuJournalOp::CreateBlob { size, .. } => {
                    c.blobs = c.blobs + 1;
                    c.blob_bytes = c.blob_bytes + *size as u128;
                },
                GpuJournalOp::MapBlob { .. } => {
                    c.maps = c.maps + 1;
                },
                GpuJournalOp::CtxAttachResource { .. } => {
                    c.attaches = c.attaches + 1;
                },
                GpuJournalOp::SetScanoutBlob { .. } | GpuJournalOp::SetScanout { .. } => {
                    c.scanouts = c.scanouts + 1;
                },
                GpuJournalOp::ResourceCreate3d { .. } | GpuJournalOp::ResourceCreate2d { .. } => {
                    c.classic = c.classic + 1;
                },
                GpuJournalOp::AttachBacking { .. } => {
                    c.backings = c.backings + 1;
                },
            }
            i = i + 1;
        }
        assert(all.take(all.len() as int) =~= all);
        c
    }

    /// The live entries in order.
    pub fn entries(&self) -> (r: &[GpuJournalEntry])
        ensures
            gpu_snapshot::ops_view(r@) == self@.entries,
    {
        self.entries.as_slice()
    }

    /// Counts a submission.
    pub fn count_submit(&mut self)
        ensures
            final(self)@ == old(self)@.with_trace(
                GpuTraceStats {
                    submits: old(self)@.trace.submits.wrapping_add(1),
                    ..old(self)@.trace
                },
            ),
    {
        self.trace.submits = self.trace.submits.wrapping_add(1);
    }

    /// Counts a fence that the guest asked for.
    pub fn count_fence_requested(&mut self)
        ensures
            final(self)@ == old(self)@.with_trace(
                GpuTraceStats {
                    fences_requested: old(self)@.trace.fences_requested.wrapping_add(1),
                    ..old(self)@.trace
                },
            ),
    {
        self.trace.fences_requested = self.trace.fences_requested.wrapping_add(1);
    }

    /// Counts a fence descriptor that went back to the guest.
    pub fn count_fence_retired(&mut self)
        ensures
            final(self)@ == old(self)@.with_trace(
                GpuTraceStats {
                    fences_retired: old(self)@.trace.fences_retired.wrapping_add(1),
                    ..old(self)@.trace
                },
            ),
    {
        self.trace.fences_retired = self.trace.fences_retired.wrapping_add(1);
    }

    /// Counts a refused command in its class.
    pub fn classify_error(&mut self, resp: &GpuResponse)
        ensures
            final(self)@ == old(self)@.with_trace(
                old(self)@.trace.counted(trace::error_class(*resp)),
            ),
    {
        self.trace.classify_error(resp);
    }

    /// Takes a request for a dump, if there is one.
    pub fn take_dump_request(&mut self) -> (wanted: bool)
        ensures
            wanted == old(self)@.trace.dump_requested,
            final(self)@ == old(self)@.with_trace(
                GpuTraceStats { dump_requested: false, ..old(self)@.trace },
            ),
    {
        let wanted: bool = self.trace.dump_requested;
        self.trace.dump_requested = false;
        wanted
    }

    /// The probe counters, the journal's gauges among them.
    pub fn trace(&self) -> (r: &GpuTraceStats)
        ensures
            *r == self@.trace,
    {
        &self.trace
    }
}

/// The highest number among the entries; 0 when there is none.
pub open spec fn highest_seq(entries: Seq<GpuJournalEntryView>) -> nat
    decreases entries.len(),
{
    if entries.len() == 0 {
        0
    } else {
        let rest = highest_seq(entries.drop_last());
        if entries.last().seq > rest {
            entries.last().seq as nat
        } else {
            rest
        }
    }
}

/// How many live entries of each kind a journal holds, and the size of its blobs.
#[derive(Clone, Copy, PartialEq, Eq, Structural, Debug)]
pub struct JournalCensus {
    pub live: u64,
    pub recorded: u64,
    pub pruned: u64,
    pub ctxs: u64,
    pub blobs: u64,
    pub maps: u64,
    pub attaches: u64,
    pub scanouts: u64,
    pub classic: u64,
    pub backings: u64,
    pub blob_bytes: u128,
}

pub struct CensusView {
    pub ctxs: nat,
    pub blobs: nat,
    pub maps: nat,
    pub attaches: nat,
    pub scanouts: nat,
    pub classic: nat,
    pub backings: nat,
    pub blob_bytes: nat,
}

impl View for JournalCensus {
    type V = CensusView;

    open spec fn view(&self) -> CensusView {
        CensusView {
            ctxs: self.ctxs as nat,
            blobs: self.blobs as nat,
            maps: self.maps as nat,
            attaches: self.attaches as nat,
            scanouts: self.scanouts as nat,
            classic: self.classic as nat,
            backings: self.backings as nat,
            blob_bytes: self.blob_bytes as nat,
        }
    }
}

/// The entries counted by kind, and the sizes of the blobs added up.
pub open spec fn census_of(entries: Seq<GpuJournalEntryView>) -> CensusView
    decreases entries.len(),
{
    if entries.len() == 0 {
        CensusView {
            ctxs: 0,
            blobs: 0,
            maps: 0,
            attaches: 0,
            scanouts: 0,
            classic: 0,
            backings: 0,
            blob_bytes: 0,
        }
    } else {
        let c = census_of(entries.drop_last());
        match entries.last().op {
            GpuJournalOpView::CtxCreate { .. } => CensusView { ctxs: c.ctxs + 1, ..c },
            GpuJournalOpView::CreateBlob { size, .. } => CensusView {
                blobs: c.blobs + 1,
                blob_bytes: c.blob_bytes + size as nat,
                ..c
            },
            GpuJournalOpView::MapBlob { .. } => CensusView { maps: c.maps + 1, ..c },
            GpuJournalOpView::CtxAttachResource { .. } => CensusView {
                attaches: c.attaches + 1,
                ..c
            },
            GpuJournalOpView::SetScanoutBlob { .. } => CensusView { scanouts: c.scanouts + 1, ..c },
            GpuJournalOpView::SetScanout { .. } => CensusView { scanouts: c.scanouts + 1, ..c },
            GpuJournalOpView::ResourceCreate3d { .. } => CensusView { classic: c.classic + 1, ..c },
            GpuJournalOpView::ResourceCreate2d { .. } => CensusView { classic: c.classic + 1, ..c },
            GpuJournalOpView::AttachBacking { .. } => CensusView { backings: c.backings + 1, ..c },
        }
    }
}

} // verus!
