//! What every command keeps of the journal.
use crate::gpu::journal;
use crate::gpu::journal::{Dead, JournalStep, JournalView};
use crate::gpu_snapshot::{GpuJournalEntryView, GpuJournalOpView};
use vstd::prelude::*;

verus! {

/// What an op is the latest word on.
pub enum Slot {
    Attach(u32, u32),
    Mapping(u32),
    Backing(u32),
    ScanoutBlob(u32),
    Scanout(u32),
}

pub open spec fn slot(op: GpuJournalOpView) -> Option<Slot> {
    match op {
        GpuJournalOpView::CtxAttachResource { ctx_id, resource_id, .. } => Some(
            Slot::Attach(ctx_id, resource_id),
        ),
        GpuJournalOpView::MapBlob { resource_id, .. } => Some(Slot::Mapping(resource_id)),
        GpuJournalOpView::AttachBacking { resource_id, .. } => Some(Slot::Backing(resource_id)),
        GpuJournalOpView::SetScanoutBlob { scanout_id, .. } => Some(Slot::ScanoutBlob(scanout_id)),
        GpuJournalOpView::SetScanout { scanout_id, .. } => Some(Slot::Scanout(scanout_id)),
        _ => None,
    }
}

/// Neither op replaces the other.
pub open spec fn apart(a: GpuJournalEntryView, b: GpuJournalEntryView) -> bool {
    slot(a.op) is None || slot(a.op) != slot(b.op)
}

/// Each slot has one entry at most: one attach record per context and resource, one mapping and
/// one backing per resource, one binding of each kind per scanout.
pub open spec fn one_per_slot(v: JournalView) -> bool {
    pairwise(v.entries, |a: GpuJournalEntryView, b: GpuJournalEntryView| apart(a, b))
}

/// `r` relates every earlier entry to every later one.
pub open spec fn pairwise(
    s: Seq<GpuJournalEntryView>,
    r: spec_fn(GpuJournalEntryView, GpuJournalEntryView) -> bool,
) -> bool {
    forall|i: int, j: int|
        0 <= i < j < s.len() ==> #[trigger] r(s[i], s[j])
}

proof fn lemma_filter_pairwise(
    s: Seq<GpuJournalEntryView>,
    keep: spec_fn(GpuJournalEntryView) -> bool,
    r: spec_fn(GpuJournalEntryView, GpuJournalEntryView) -> bool,
)
    requires
        pairwise(s, r),
    ensures
        pairwise(s.filter(keep), r),
    decreases s.len(),
{
    reveal(Seq::filter);
    if s.len() > 0 {
        let init = s.drop_last();
        assert forall|i: int, j: int| 0 <= i < j < init.len() implies #[trigger] r(
            init[i],
            init[j],
        ) by {
            assert(r(s[i], s[j]));
        }
        lemma_filter_pairwise(init, keep, r);
        let f = init.filter(keep);
        if keep(s.last()) {
            assert forall|i: int, j: int| 0 <= i < j < s.filter(keep).len() implies #[trigger] r(
                s.filter(keep)[i],
                s.filter(keep)[j],
            ) by {
                if j < f.len() {
                    assert(r(f[i], f[j]));
                } else {
                    init.lemma_filter_contains_rev(keep, f[i]);
                    let k = choose|k: int| 0 <= k < init.len() && init[k] == f[i];
                    assert(r(s[k], s[s.len() - 1]));
                }
            }
        }
    }
}

pub proof fn lemma_attach_at(entries: Seq<GpuJournalEntryView>, c: u32, r: u32, from: int)
    requires
        0 <= from <= entries.len(),
    ensures
        match journal::attach_at(entries, c, r, from) {
            Some(i) => from <= i < entries.len() && journal::attaches(entries[i].op, c, r),
            None => forall|i: int|
                from <= i < entries.len() ==> !journal::attaches((#[trigger] entries[i]).op, c, r),
        },
    decreases entries.len() - from,
{
    if from < entries.len() && !journal::attaches(entries[from].op, c, r) {
        lemma_attach_at(entries, c, r, from + 1);
    }
}

/// No entry is in the slot that a prune empties.
proof fn lemma_pruned_slot(v: JournalView, dead: Dead, op: GpuJournalOpView)
    requires
        match dead {
            Dead::Mapping(r) => slot(op) == Some(Slot::Mapping(r)),
            Dead::Backing(r) => slot(op) == Some(Slot::Backing(r)),
            Dead::ScanoutBlob(s) => slot(op) == Some(Slot::ScanoutBlob(s)),
            Dead::Scanout(s) => slot(op) == Some(Slot::Scanout(s)),
            _ => false,
        },
    ensures
        forall|i: int|
            0 <= i < v.prune(dead).entries.len() ==> slot((#[trigger] v.prune(dead).entries[i]).op)
                != slot(op),
{
    let keep = |e: GpuJournalEntryView| !dead.covers(e.op);
    assert forall|i: int| 0 <= i < v.prune(dead).entries.len() implies slot(
        (#[trigger] v.prune(dead).entries[i]).op,
    ) != slot(op) by {
        v.entries.lemma_filter_pred(keep, i);
    }
}

proof fn lemma_push_keeps(v: JournalView, op: GpuJournalOpView, vkr_seq: u64)
    requires
        one_per_slot(v),
        slot(op) is None || forall|i: int|
            0 <= i < v.entries.len() ==> slot((#[trigger] v.entries[i]).op) != slot(op),
    ensures
        one_per_slot(v.push(op, vkr_seq)),
{
    let r = |a: GpuJournalEntryView, b: GpuJournalEntryView| apart(a, b);
    let w = v.push(op, vkr_seq);
    assert forall|i: int, j: int| 0 <= i < j < w.entries.len() implies #[trigger] r(
        w.entries[i],
        w.entries[j],
    ) by {
        if j < v.entries.len() {
            assert(r(v.entries[i], v.entries[j]));
        } else {
            assert(w.entries[i] == v.entries[i]);
        }
    }
}

proof fn lemma_prune_keeps(v: JournalView, dead: Dead)
    requires
        one_per_slot(v),
    ensures
        one_per_slot(v.prune(dead)),
{
    lemma_filter_pairwise(
        v.entries,
        |e: GpuJournalEntryView| !dead.covers(e.op),
        |a: GpuJournalEntryView, b: GpuJournalEntryView| apart(a, b),
    );
}

/// A create has no slot: nothing it would replace.
pub open spec fn step_creates_well(step: JournalStep) -> bool {
    match step {
        JournalStep::Create { op, .. } => slot(op) is None,
        _ => true,
    }
}

/// Whatever the guest does, each slot keeps one entry at most.
pub proof fn law_one_entry_per_slot(v: JournalView, step: JournalStep)
    requires
        one_per_slot(v),
        step_creates_well(step),
    ensures
        one_per_slot(v.apply(step)),
{
    match step {
        JournalStep::CtxCreate { ctx_id, context_init, name } => {
            lemma_push_keeps(v, GpuJournalOpView::CtxCreate { ctx_id, context_init, name }, 0);
        },
        JournalStep::CtxDestroy { ctx_id } => {
            lemma_prune_keeps(v, Dead::Context(ctx_id));
        },
        JournalStep::CtxAttach { ctx_id, resource_id } => {
            lemma_attach_at(v.entries, ctx_id, resource_id, 0);
            if journal::attach_at(v.entries, ctx_id, resource_id, 0) is Some {
                lemma_mark_keeps(v, ctx_id, resource_id, false);
            } else {
                lemma_push_keeps(
                    v,
                    GpuJournalOpView::CtxAttachResource { ctx_id, resource_id, detached: false },
                    0,
                );
            }
        },
        JournalStep::CtxDetach { ctx_id, resource_id } => {
            lemma_mark_keeps(v, ctx_id, resource_id, true);
        },
        JournalStep::Create { op, vkr_seq } => {
            lemma_push_keeps(v, op, vkr_seq);
        },
        JournalStep::ResourceUnref { resource_id } => {
            lemma_prune_keeps(v, Dead::Resource(resource_id));
        },
        JournalStep::MapBlob { resource_id, offset } => {
            let op = GpuJournalOpView::MapBlob { resource_id, offset };
            lemma_prune_keeps(v, Dead::Mapping(resource_id));
            lemma_pruned_slot(v, Dead::Mapping(resource_id), op);
            lemma_push_keeps(v.prune(Dead::Mapping(resource_id)), op, 0);
        },
        JournalStep::UnmapBlob { resource_id } => {
            lemma_prune_keeps(v, Dead::Mapping(resource_id));
        },
        JournalStep::SetScanoutBlob { scanout_id, resource_id, width, height, format } => {
            let op = GpuJournalOpView::SetScanoutBlob {
                scanout_id,
                resource_id,
                width,
                height,
                format,
            };
            lemma_prune_keeps(v, Dead::ScanoutBlob(scanout_id));
            lemma_pruned_slot(v, Dead::ScanoutBlob(scanout_id), op);
            lemma_push_keeps(v.prune(Dead::ScanoutBlob(scanout_id)), op, 0);
        },
        JournalStep::AttachBacking { resource_id, backing } => {
            let op = GpuJournalOpView::AttachBacking { resource_id, backing };
            lemma_prune_keeps(v, Dead::Backing(resource_id));
            lemma_pruned_slot(v, Dead::Backing(resource_id), op);
            lemma_push_keeps(v.prune(Dead::Backing(resource_id)), op, 0);
        },
        JournalStep::DetachBacking { resource_id } => {
            lemma_prune_keeps(v, Dead::Backing(resource_id));
        },
        JournalStep::SetScanout { scanout_id, resource_id, width, height } => {
            let op = GpuJournalOpView::SetScanout { scanout_id, resource_id, width, height };
            lemma_prune_keeps(v, Dead::Scanout(scanout_id));
            lemma_pruned_slot(v, Dead::Scanout(scanout_id), op);
            lemma_push_keeps(v.prune(Dead::Scanout(scanout_id)), op, 0);
        },
        JournalStep::Reset => {},
    }
}

proof fn lemma_mark_keeps(v: JournalView, c: u32, r: u32, detached: bool)
    requires
        one_per_slot(v),
    ensures
        one_per_slot(v.mark(c, r, detached)),
{
    let rel = |a: GpuJournalEntryView, b: GpuJournalEntryView| apart(a, b);
    lemma_attach_at(v.entries, c, r, 0);
    let w = v.mark(c, r, detached);
    assert forall|i: int, j: int| 0 <= i < j < w.entries.len() implies #[trigger] rel(
        w.entries[i],
        w.entries[j],
    ) by {
        assert(rel(v.entries[i], v.entries[j]));
        assert(slot(w.entries[i].op) == slot(v.entries[i].op));
        assert(slot(w.entries[j].op) == slot(v.entries[j].op));
    }
}

/// A detach erases nothing: every entry keeps its place, its number and its watermark, and the
/// attach record of the detached resource stays an attach record.
pub proof fn law_detach_keeps_the_attach(v: JournalView, ctx_id: u32, resource_id: u32)
    ensures
        ({
            let w = v.apply(JournalStep::CtxDetach { ctx_id, resource_id });
            &&& w.entries.len() == v.entries.len()
            &&& w.seq_next == v.seq_next && w.recorded == v.recorded && w.pruned == v.pruned
            &&& forall|i: int|
                0 <= i < v.entries.len() ==> {
                    &&& (#[trigger] w.entries[i]).seq == v.entries[i].seq
                    &&& w.entries[i].vkr_seq == v.entries[i].vkr_seq
                    &&& slot(w.entries[i].op) == slot(v.entries[i].op)
                    &&& !journal::attaches(v.entries[i].op, ctx_id, resource_id) ==> w.entries[i]
                        == v.entries[i]
                }
        }),
{
    lemma_attach_at(v.entries, ctx_id, resource_id, 0);
}

/// An attach of what is already recorded, detached or not, takes no new entry, and the record then
/// says that the resource is attached.
pub proof fn law_reattach_reuses_the_record(v: JournalView, ctx_id: u32, resource_id: u32)
    ensures
        ({
            let once = v.apply(JournalStep::CtxAttach { ctx_id, resource_id });
            let off = once.apply(JournalStep::CtxDetach { ctx_id, resource_id });
            let again = off.apply(JournalStep::CtxAttach { ctx_id, resource_id });
            &&& off.entries.len() == once.entries.len()
            &&& again == once
        }),
{
    let once = v.apply(JournalStep::CtxAttach { ctx_id, resource_id });
    lemma_attach_at(v.entries, ctx_id, resource_id, 0);
    lemma_attach_at(once.entries, ctx_id, resource_id, 0);
    let off = once.apply(JournalStep::CtxDetach { ctx_id, resource_id });
    lemma_attach_at(off.entries, ctx_id, resource_id, 0);
    let i = journal::attach_at(once.entries, ctx_id, resource_id, 0).unwrap();
    lemma_attach_first(v.entries, once.entries, ctx_id, resource_id, 0);
    lemma_attach_same(once.entries, off.entries, ctx_id, resource_id, 0);
    let again = off.apply(JournalStep::CtxAttach { ctx_id, resource_id });
    assert(again.entries =~= once.entries);
}

/// The record that an attach leaves says attached.
proof fn lemma_attach_first(
    before: Seq<GpuJournalEntryView>,
    after: Seq<GpuJournalEntryView>,
    c: u32,
    r: u32,
    from: int,
)
    requires
        0 <= from <= before.len(),
        match journal::attach_at(before, c, r, from) {
            Some(i) => {
                &&& after.len() == before.len()
                &&& forall|j: int| from <= j < before.len() && j != i ==> after[j] == before[j]
                &&& after[i].op == (GpuJournalOpView::CtxAttachResource {
                    ctx_id: c,
                    resource_id: r,
                    detached: false,
                })
            },
            None => {
                &&& after.len() == before.len() + 1
                &&& forall|j: int| from <= j < before.len() ==> after[j] == before[j]
                &&& after[before.len() as int].op == (GpuJournalOpView::CtxAttachResource {
                    ctx_id: c,
                    resource_id: r,
                    detached: false,
                })
            },
        },
    ensures
        ({
            let k = journal::attach_at(after, c, r, from);
            &&& k == Some(
                match journal::attach_at(before, c, r, from) {
                    Some(i) => i,
                    None => before.len() as int,
                },
            )
            &&& after[k.unwrap()].op == (GpuJournalOpView::CtxAttachResource {
                ctx_id: c,
                resource_id: r,
                detached: false,
            })
        }),
    decreases before.len() - from,
{
    lemma_attach_at(before, c, r, from);
    if from < before.len() && !journal::attaches(before[from].op, c, r) {
        lemma_attach_first(before, after, c, r, from + 1);
    }
}

proof fn lemma_attach_same(
    a: Seq<GpuJournalEntryView>,
    b: Seq<GpuJournalEntryView>,
    c: u32,
    r: u32,
    from: int,
)
    requires
        0 <= from <= a.len(),
        a.len() == b.len(),
        forall|i: int|
            from <= i < a.len() ==> journal::attaches((#[trigger] a[i]).op, c, r)
                == journal::attaches(b[i].op, c, r),
    ensures
        journal::attach_at(a, c, r, from) == journal::attach_at(b, c, r, from),
    decreases a.len() - from,
{
    if from < a.len() && !journal::attaches(a[from].op, c, r) {
        assert(journal::attaches(a[from].op, c, r) == journal::attaches(b[from].op, c, r));
        lemma_attach_same(a, b, c, r, from + 1);
    }
}

/// Entries stay numbered in increasing order, and below the next number.
pub proof fn law_entries_stay_ordered(v: JournalView, step: JournalStep)
    requires
        v.wf(),
        v.ordered(),
        v.has_room(),
    ensures
        v.apply(step).ordered(),
{
    match step {
        JournalStep::CtxDestroy { ctx_id } => {
            lemma_prune_ordered(v, Dead::Context(ctx_id));
        },
        JournalStep::CtxAttach { ctx_id, resource_id } => {
            lemma_attach_at(v.entries, ctx_id, resource_id, 0);
        },
        JournalStep::CtxDetach { ctx_id, resource_id } => {
            lemma_attach_at(v.entries, ctx_id, resource_id, 0);
        },
        JournalStep::ResourceUnref { resource_id } => {
            lemma_prune_ordered(v, Dead::Resource(resource_id));
        },
        JournalStep::MapBlob { resource_id, offset } => {
            lemma_prune_ordered(v, Dead::Mapping(resource_id));
        },
        JournalStep::UnmapBlob { resource_id } => {
            lemma_prune_ordered(v, Dead::Mapping(resource_id));
        },
        JournalStep::SetScanoutBlob { scanout_id, .. } => {
            lemma_prune_ordered(v, Dead::ScanoutBlob(scanout_id));
        },
        JournalStep::AttachBacking { resource_id, .. } => {
            lemma_prune_ordered(v, Dead::Backing(resource_id));
        },
        JournalStep::DetachBacking { resource_id } => {
            lemma_prune_ordered(v, Dead::Backing(resource_id));
        },
        JournalStep::SetScanout { scanout_id, .. } => {
            lemma_prune_ordered(v, Dead::Scanout(scanout_id));
        },
        _ => {},
    }
}

proof fn lemma_prune_ordered(v: JournalView, dead: Dead)
    requires
        v.wf(),
        v.ordered(),
    ensures
        v.prune(dead).ordered(),
        v.prune(dead).wf(),
        v.prune(dead).seq_next == v.seq_next,
{
    let r = |a: GpuJournalEntryView, b: GpuJournalEntryView| a.seq < b.seq;
    let keep = |e: GpuJournalEntryView| !dead.covers(e.op);
    assert(pairwise(v.entries, r));
    lemma_filter_pairwise(v.entries, keep, r);
    v.entries.lemma_filter_len(keep);
    let w = v.prune(dead);
    assert forall|i: int| 0 <= i < w.entries.len() implies (#[trigger] w.entries[i]).seq
        < v.seq_next by {
        v.entries.lemma_filter_contains_rev(keep, w.entries[i]);
    }
    assert forall|i: int, j: int| 0 <= i < j < w.entries.len() implies (
    #[trigger] w.entries[i]).seq < (#[trigger] w.entries[j]).seq by {
        assert(r(w.entries[i], w.entries[j]));
    }
}

/// After an unref nothing names the resource; after a context destroy nothing but resources is
/// left of the context.
pub proof fn law_destroys_prune(v: JournalView, id: u32)
    ensures
        forall|i: int|
            #![trigger v.apply(JournalStep::ResourceUnref { resource_id: id }).entries[i]]
            0 <= i < v.apply(JournalStep::ResourceUnref { resource_id: id }).entries.len()
                ==> !journal::names_resource(
                v.apply(JournalStep::ResourceUnref { resource_id: id }).entries[i].op,
                id,
            ),
        forall|i: int|
            #![trigger v.apply(JournalStep::CtxDestroy { ctx_id: id }).entries[i]]
            0 <= i < v.apply(JournalStep::CtxDestroy { ctx_id: id }).entries.len()
                ==> !Dead::Context(id).covers(
                v.apply(JournalStep::CtxDestroy { ctx_id: id }).entries[i].op,
            ),
{
    let w = v.apply(JournalStep::ResourceUnref { resource_id: id });
    let d1 = Dead::Resource(id);
    assert forall|i: int| 0 <= i < w.entries.len() implies !journal::names_resource(
        #[trigger] w.entries[i].op,
        id,
    ) by {
        v.entries.lemma_filter_pred(|e: GpuJournalEntryView| !d1.covers(e.op), i);
    }
    let x = v.apply(JournalStep::CtxDestroy { ctx_id: id });
    let d2 = Dead::Context(id);
    assert forall|i: int| 0 <= i < x.entries.len() implies !d2.covers(
        #[trigger] x.entries[i].op,
    ) by {
        v.entries.lemma_filter_pred(|e: GpuJournalEntryView| !d2.covers(e.op), i);
    }
}

} // verus!
