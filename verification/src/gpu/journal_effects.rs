//! What each command does to the journal, entry by entry.
use crate::gpu::journal;
use crate::gpu::journal::{Dead, JournalStep, JournalView};
use crate::gpu::journal_laws;
use crate::gpu_snapshot::{GpuJournalEntryView, GpuJournalOpView};
use vstd::prelude::*;

verus! {

/// The command makes it pointless to carry the op out again: what it made is gone, or something
/// else took its place.
pub open spec fn outlived(step: JournalStep, op: GpuJournalOpView) -> bool {
    match step {
        JournalStep::CtxDestroy { ctx_id } => {
            ||| op is CtxCreate && op->CtxCreate_ctx_id == ctx_id
            ||| op is CtxAttachResource && op->CtxAttachResource_ctx_id == ctx_id
        },
        JournalStep::ResourceUnref { resource_id } => {
            ||| op is CtxAttachResource && op->CtxAttachResource_resource_id == resource_id
            ||| op is CreateBlob && op->CreateBlob_resource_id == resource_id
            ||| op is ResourceCreate3d && op->ResourceCreate3d_resource_id == resource_id
            ||| op is ResourceCreate2d && op->ResourceCreate2d_resource_id == resource_id
            ||| op is MapBlob && op->MapBlob_resource_id == resource_id
            ||| op is AttachBacking && op->AttachBacking_resource_id == resource_id
            ||| op is SetScanoutBlob && op->SetScanoutBlob_resource_id == resource_id
            ||| op is SetScanout && op->SetScanout_resource_id == resource_id
        },
        JournalStep::MapBlob { resource_id, .. } => op is MapBlob && op->MapBlob_resource_id
            == resource_id,
        JournalStep::UnmapBlob { resource_id } => op is MapBlob && op->MapBlob_resource_id
            == resource_id,
        JournalStep::AttachBacking { resource_id, .. } => op is AttachBacking
            && op->AttachBacking_resource_id == resource_id,
        JournalStep::DetachBacking { resource_id } => op is AttachBacking
            && op->AttachBacking_resource_id == resource_id,
        JournalStep::SetScanoutBlob { scanout_id, .. } => op is SetScanoutBlob
            && op->SetScanoutBlob_scanout_id == scanout_id,
        JournalStep::SetScanout { scanout_id, .. } => op is SetScanout && op->SetScanout_scanout_id
            == scanout_id,
        JournalStep::Reset => true,
        _ => false,
    }
}

/// The op that the command is recorded as, where it makes something, and the wire entries that it
/// is behind.
pub open spec fn made_by(step: JournalStep) -> Option<(GpuJournalOpView, u64)> {
    match step {
        JournalStep::CtxCreate { ctx_id, context_init, name } => Some(
            (GpuJournalOpView::CtxCreate { ctx_id, context_init, name }, 0),
        ),
        JournalStep::Create { op, vkr_seq } => Some((op, vkr_seq)),
        JournalStep::MapBlob { resource_id, offset } => Some(
            (GpuJournalOpView::MapBlob { resource_id, offset }, 0),
        ),
        JournalStep::AttachBacking { resource_id, backing } => Some(
            (GpuJournalOpView::AttachBacking { resource_id, backing }, 0),
        ),
        JournalStep::SetScanoutBlob { scanout_id, resource_id, width, height, format } => {
            if resource_id == 0 {
                None
            } else {
                Some(
                    (
                        GpuJournalOpView::SetScanoutBlob {
                            scanout_id,
                            resource_id,
                            width,
                            height,
                            format,
                        },
                        0,
                    ),
                )
            }
        },
        JournalStep::SetScanout { scanout_id, resource_id, width, height } => {
            if resource_id == 0 {
                None
            } else {
                Some(
                    (GpuJournalOpView::SetScanout { scanout_id, resource_id, width, height }, 0),
                )
            }
        },
        _ => None,
    }
}

/// The command attaches a resource to a context, or takes it away again.
pub open spec fn about_attaches(step: JournalStep) -> bool {
    step is CtxAttach || step is CtxDetach
}

/// The entries that the command leaves behind: those that it does not outlive, in the order in
/// which they were, and then its own with the next number.
pub proof fn law_commands_leave_the_rest(v: JournalView, step: JournalStep)
    requires
        v.has_room(),
        !about_attaches(step),
    ensures
        ({
            let kept = v.entries.filter(|e: GpuJournalEntryView| !outlived(step, e.op));
            let after = v.apply(step);
            &&& after.entries == match made_by(step) {
                Some((op, vkr_seq)) => kept.push(
                    GpuJournalEntryView { seq: v.seq_next as u64, vkr_seq, op },
                ),
                None => kept,
            }
            &&& after.seq_next == v.seq_next + (if made_by(step) is Some {
                1int
            } else {
                0
            })
            &&& after.recorded == v.recorded + (if made_by(step) is Some {
                1int
            } else {
                0
            })
            &&& after.pruned == v.pruned + (v.entries.len() - kept.len())
        }),
{
    let gone = |e: GpuJournalEntryView| !outlived(step, e.op);
    match step {
        JournalStep::CtxDestroy { ctx_id } => {
            lemma_pruned(v, Dead::Context(ctx_id), gone);
        },
        JournalStep::ResourceUnref { resource_id } => {
            lemma_pruned(v, Dead::Resource(resource_id), gone);
        },
        JournalStep::MapBlob { resource_id, .. } => {
            lemma_pruned(v, Dead::Mapping(resource_id), gone);
        },
        JournalStep::UnmapBlob { resource_id } => {
            lemma_pruned(v, Dead::Mapping(resource_id), gone);
        },
        JournalStep::AttachBacking { resource_id, .. } => {
            lemma_pruned(v, Dead::Backing(resource_id), gone);
        },
        JournalStep::DetachBacking { resource_id } => {
            lemma_pruned(v, Dead::Backing(resource_id), gone);
        },
        JournalStep::SetScanoutBlob { scanout_id, .. } => {
            lemma_pruned(v, Dead::ScanoutBlob(scanout_id), gone);
        },
        JournalStep::SetScanout { scanout_id, .. } => {
            lemma_pruned(v, Dead::Scanout(scanout_id), gone);
        },
        JournalStep::Reset => {
            lemma_filter_none(v.entries, gone);
        },
        _ => {
            lemma_filter_all(v.entries, gone);
        },
    }
}

proof fn lemma_pruned(v: JournalView, dead: Dead, keep: spec_fn(GpuJournalEntryView) -> bool)
    requires
        forall|e: GpuJournalEntryView| #[trigger] keep(e) == !dead.covers(e.op),
    ensures
        v.prune(dead).entries == v.entries.filter(keep),
{
    let f = |e: GpuJournalEntryView| !dead.covers(e.op);
    assert(f =~= keep);
}

proof fn lemma_filter_none(
    s: Seq<GpuJournalEntryView>,
    keep: spec_fn(GpuJournalEntryView) -> bool,
)
    requires
        forall|e: GpuJournalEntryView| !#[trigger] keep(e),
    ensures
        s.filter(keep) == Seq::<GpuJournalEntryView>::empty(),
    decreases s.len(),
{
    reveal(Seq::filter);
    if s.len() > 0 {
        lemma_filter_none(s.drop_last(), keep);
    }
}

proof fn lemma_filter_all(s: Seq<GpuJournalEntryView>, keep: spec_fn(GpuJournalEntryView) -> bool)
    requires
        forall|e: GpuJournalEntryView| #[trigger] keep(e),
    ensures
        s.filter(keep) == s,
    decreases s.len(),
{
    reveal(Seq::filter);
    if s.len() > 0 {
        lemma_filter_all(s.drop_last(), keep);
        assert(s.drop_last().push(s.last()) =~= s);
    }
}

/// One context's end costs no other its entries: what is neither the creation of the context nor
/// one of its attaches stays as it was, and those two are gone. The entries that stay keep their
/// order.
pub proof fn law_context_destroy_spares_the_rest(v: JournalView, ctx_id: u32, i: int, j: int)
    requires
        v.has_room(),
        0 <= i < j < v.entries.len(),
    ensures
        ({
            let after = v.apply(JournalStep::CtxDestroy { ctx_id }).entries;
            let mine = |e: GpuJournalEntryView|
                match e.op {
                    GpuJournalOpView::CtxCreate { ctx_id: c, .. } => c == ctx_id,
                    GpuJournalOpView::CtxAttachResource { ctx_id: c, .. } => c == ctx_id,
                    _ => false,
                };
            &&& after.contains(v.entries[i]) == !mine(v.entries[i])
            &&& after.contains(v.entries[j]) == !mine(v.entries[j])
            &&& !mine(v.entries[i]) && !mine(v.entries[j]) ==> exists|a: int, b: int|
                0 <= a < b < after.len() && #[trigger] after[a] == v.entries[i]
                    && #[trigger] after[b] == v.entries[j]
        }),
{
    law_commands_leave_the_rest(v, JournalStep::CtxDestroy { ctx_id });
    lemma_kept(v, JournalStep::CtxDestroy { ctx_id }, i, j);
}

/// A resource's end costs no other its entries: what does not name it stays as it was.
pub proof fn law_unref_spares_the_rest(v: JournalView, resource_id: u32, i: int, j: int)
    requires
        v.has_room(),
        0 <= i < j < v.entries.len(),
    ensures
        ({
            let after = v.apply(JournalStep::ResourceUnref { resource_id }).entries;
            let mine = |e: GpuJournalEntryView|
                match e.op {
                    GpuJournalOpView::CtxCreate { .. } => false,
                    GpuJournalOpView::CtxAttachResource { resource_id: r, .. } => r == resource_id,
                    GpuJournalOpView::CreateBlob { resource_id: r, .. } => r == resource_id,
                    GpuJournalOpView::MapBlob { resource_id: r, .. } => r == resource_id,
                    GpuJournalOpView::SetScanoutBlob { resource_id: r, .. } => r == resource_id,
                    GpuJournalOpView::ResourceCreate3d { resource_id: r, .. } => r == resource_id,
                    GpuJournalOpView::ResourceCreate2d { resource_id: r, .. } => r == resource_id,
                    GpuJournalOpView::AttachBacking { resource_id: r, .. } => r == resource_id,
                    GpuJournalOpView::SetScanout { resource_id: r, .. } => r == resource_id,
                };
            &&& after.contains(v.entries[i]) == !mine(v.entries[i])
            &&& after.contains(v.entries[j]) == !mine(v.entries[j])
            &&& !mine(v.entries[i]) && !mine(v.entries[j]) ==> exists|a: int, b: int|
                0 <= a < b < after.len() && #[trigger] after[a] == v.entries[i]
                    && #[trigger] after[b] == v.entries[j]
        }),
{
    law_commands_leave_the_rest(v, JournalStep::ResourceUnref { resource_id });
    lemma_kept(v, JournalStep::ResourceUnref { resource_id }, i, j);
}

proof fn lemma_kept(v: JournalView, step: JournalStep, i: int, j: int)
    requires
        0 <= i < j < v.entries.len(),
        v.apply(step).entries == v.entries.filter(
            |e: GpuJournalEntryView| !outlived(step, e.op),
        ),
    ensures
        ({
            let after = v.apply(step).entries;
            &&& after.contains(v.entries[i]) == !outlived(step, v.entries[i].op)
            &&& after.contains(v.entries[j]) == !outlived(step, v.entries[j].op)
            &&& !outlived(step, v.entries[i].op) && !outlived(step, v.entries[j].op)
                ==> exists|a: int, b: int|
                0 <= a < b < after.len() && #[trigger] after[a] == v.entries[i]
                    && #[trigger] after[b] == v.entries[j]
        }),
{
    let keep = |e: GpuJournalEntryView| !outlived(step, e.op);
    lemma_filter_has(v.entries, keep, i);
    lemma_filter_has(v.entries, keep, j);
    if keep(v.entries[i]) && keep(v.entries[j]) {
        lemma_filter_order(v.entries, keep, i, j);
    }
}

proof fn lemma_filter_has(
    s: Seq<GpuJournalEntryView>,
    keep: spec_fn(GpuJournalEntryView) -> bool,
    i: int,
)
    requires
        0 <= i < s.len(),
    ensures
        s.filter(keep).contains(s[i]) == keep(s[i]),
{
    if keep(s[i]) {
        s.lemma_filter_contains(keep, i);
    } else if s.filter(keep).contains(s[i]) {
        let k = choose|k: int| 0 <= k < s.filter(keep).len() && s.filter(keep)[k] == s[i];
        s.lemma_filter_pred(keep, k);
    }
}

proof fn lemma_filter_order(
    s: Seq<GpuJournalEntryView>,
    keep: spec_fn(GpuJournalEntryView) -> bool,
    i: int,
    j: int,
)
    requires
        0 <= i < j < s.len(),
        keep(s[i]),
        keep(s[j]),
    ensures
        exists|a: int, b: int|
            0 <= a < b < s.filter(keep).len() && #[trigger] s.filter(keep)[a] == s[i]
                && #[trigger] s.filter(keep)[b] == s[j],
    decreases s.len(),
{
    reveal(Seq::filter);
    let init = s.drop_last();
    let f = init.filter(keep);
    if j == s.len() - 1 {
        init.lemma_filter_contains(keep, i);
        let a = choose|a: int| 0 <= a < f.len() && f[a] == init[i];
        assert(s.filter(keep)[a] == s[i]);
        assert(s.filter(keep)[f.len() as int] == s[j]);
    } else {
        lemma_filter_order(init, keep, i, j);
        let (a, b) = choose|a: int, b: int|
            0 <= a < b < f.len() && #[trigger] f[a] == init[i] && #[trigger] f[b] == init[j];
        assert(s.filter(keep)[a] == s[i]);
        assert(s.filter(keep)[b] == s[j]);
    }
}

/// After an attach there is a record of it that says attached, after a detach every record of it
/// says detached, and every record of anything else is as it was. A detach of what was never
/// attached records nothing.
pub proof fn law_attach_records_say_what_was_last(
    v: JournalView,
    ctx_id: u32,
    resource_id: u32,
    i: int,
)
    requires
        v.has_room(),
        journal_laws::one_per_slot(v),
        0 <= i < v.entries.len(),
    ensures
        ({
            let on = v.apply(JournalStep::CtxAttach { ctx_id, resource_id });
            let off = v.apply(JournalStep::CtxDetach { ctx_id, resource_id });
            let attach = GpuJournalOpView::CtxAttachResource {
                ctx_id,
                resource_id,
                detached: false,
            };
            let detach = GpuJournalOpView::CtxAttachResource {
                ctx_id,
                resource_id,
                detached: true,
            };
            let mine = v.entries[i].op == attach || v.entries[i].op == detach;
            &&& exists|k: int| 0 <= k < on.entries.len() && (#[trigger] on.entries[k]).op == attach
            &&& off.entries.len() == v.entries.len()
            &&& off.entries[i] == if mine {
                GpuJournalEntryView { op: detach, ..v.entries[i] }
            } else {
                v.entries[i]
            }
            &&& on.entries[i] == if mine {
                GpuJournalEntryView { op: attach, ..v.entries[i] }
            } else {
                v.entries[i]
            }
            &&& on.entries.len() == v.entries.len() || (on.entries.len() == v.entries.len() + 1
                && !mine)
        }),
{
    let r = |a: GpuJournalEntryView, b: GpuJournalEntryView| journal_laws::apart(a, b);
    journal_laws::lemma_attach_at(v.entries, ctx_id, resource_id, 0);
    let on = v.apply(JournalStep::CtxAttach { ctx_id, resource_id });
    match journal::attach_at(v.entries, ctx_id, resource_id, 0) {
        Some(k) => {
            assert(on.entries[k].op == (GpuJournalOpView::CtxAttachResource {
                ctx_id,
                resource_id,
                detached: false,
            }));
            if i < k {
                assert(r(v.entries[i], v.entries[k]));
            } else if k < i {
                assert(r(v.entries[k], v.entries[i]));
            }
        },
        None => {
            assert(on.entries[v.entries.len() as int].op == (GpuJournalOpView::CtxAttachResource {
                ctx_id,
                resource_id,
                detached: false,
            }));
            assert(!journal::attaches(v.entries[i].op, ctx_id, resource_id));
        },
    }
}

/// Nothing is forgotten and nothing is made up: whatever was recorded and was not pruned is there,
/// and the gauges say so.
pub proof fn law_journal_is_accounted_for(v: JournalView, step: JournalStep)
    requires
        v.wf(),
        v.has_room(),
        v.recorded == v.pruned + v.entries.len(),
    ensures
        ({
            let after = v.apply(step);
            &&& after.recorded == after.pruned + after.entries.len()
            &&& !about_attaches(step) ==> {
                &&& after.trace.journal_live == after.entries.len() as u64
                &&& after.trace.journal_recorded == after.recorded as u64
                &&& after.trace.journal_pruned == after.pruned as u64
            }
        }),
{
    if !about_attaches(step) {
        law_commands_leave_the_rest(v, step);
        v.entries.lemma_filter_len(|e: GpuJournalEntryView| !outlived(step, e.op));
    }
    match step {
        JournalStep::CtxAttach { ctx_id, resource_id } => {
            journal_laws::lemma_attach_at(v.entries, ctx_id, resource_id, 0);
        },
        JournalStep::CtxDetach { ctx_id, resource_id } => {
            journal_laws::lemma_attach_at(v.entries, ctx_id, resource_id, 0);
        },
        _ => {},
    }
}

/// The blob that an unref lets go is one that the journal has a create of, for that resource.
pub proof fn law_pinned_blob_was_created(entries: Seq<GpuJournalEntryView>, resource_id: u32)
    ensures
        match journal::pinned_blob(entries, resource_id) {
            Some((ctx_id, blob_id)) => blob_id != 0 && exists|i: int|
                0 <= i < entries.len() && (#[trigger] entries[i]).op is CreateBlob
                    && entries[i].op->CreateBlob_ctx_id == ctx_id
                    && entries[i].op->CreateBlob_blob_id == blob_id
                    && entries[i].op->CreateBlob_resource_id == resource_id,
            None => forall|i: int|
                0 <= i < entries.len() ==> !((#[trigger] entries[i]).op is CreateBlob
                    && entries[i].op->CreateBlob_resource_id == resource_id
                    && entries[i].op->CreateBlob_blob_id != 0),
        },
    decreases entries.len(),
{
    if entries.len() > 0 {
        let rest = entries.drop_last();
        law_pinned_blob_was_created(rest, resource_id);
        match journal::pinned_blob(entries, resource_id) {
            Some((ctx_id, blob_id)) => {
                let n = entries.len() - 1;
                let last = entries[n].op;
                if last is CreateBlob && last->CreateBlob_resource_id == resource_id
                    && last->CreateBlob_blob_id != 0 {
                    assert(entries[n].op->CreateBlob_ctx_id == ctx_id);
                } else {
                    let i = choose|i: int|
                        0 <= i < rest.len() && (#[trigger] rest[i]).op is CreateBlob
                            && rest[i].op->CreateBlob_ctx_id == ctx_id
                            && rest[i].op->CreateBlob_blob_id == blob_id
                            && rest[i].op->CreateBlob_resource_id == resource_id;
                    assert(entries[i] == rest[i]);
                }
            },
            None => {
                assert forall|i: int| 0 <= i < entries.len() implies !((
                #[trigger] entries[i]).op is CreateBlob && entries[i].op->CreateBlob_resource_id
                    == resource_id && entries[i].op->CreateBlob_blob_id != 0) by {
                    if i < rest.len() {
                        assert(rest[i] == entries[i]);
                    }
                }
            },
        }
    }
}

/// Recording goes on past every number that was given out before.
pub proof fn law_restored_numbers_are_passed(entries: Seq<GpuJournalEntryView>, i: int)
    requires
        0 <= i < entries.len(),
    ensures
        entries[i].seq <= journal::highest_seq(entries),
        exists|k: int|
            0 <= k < entries.len() && (#[trigger] entries[k]).seq == journal::highest_seq(entries)
            || journal::highest_seq(entries) == 0,
    decreases entries.len(),
{
    let rest = entries.drop_last();
    let n = entries.len() - 1;
    if i < rest.len() {
        law_restored_numbers_are_passed(rest, i);
        assert(rest[i] == entries[i]);
    }
    if rest.len() > 0 {
        law_restored_numbers_are_passed(rest, 0);
        if journal::highest_seq(rest) != 0 {
            let k = choose|k: int|
                0 <= k < rest.len() && (#[trigger] rest[k]).seq == journal::highest_seq(rest)
                    || journal::highest_seq(rest) == 0;
            assert(entries[k] == rest[k]);
        }
    }
    assert(entries[n].seq == entries.last().seq);
}

/// Every entry is counted, as one kind: the census adds up to the journal.
pub proof fn law_census_adds_up(entries: Seq<GpuJournalEntryView>)
    ensures
        ({
            let c = journal::census_of(entries);
            c.ctxs + c.blobs + c.maps + c.attaches + c.scanouts + c.classic + c.backings
                == entries.len()
        }),
    decreases entries.len(),
{
    if entries.len() > 0 {
        law_census_adds_up(entries.drop_last());
    }
}

/// One more entry counts where its kind is counted, and nowhere else; a blob also by its size.
pub proof fn law_census_counts_kinds(entries: Seq<GpuJournalEntryView>, e: GpuJournalEntryView)
    ensures
        ({
            let a = journal::census_of(entries);
            let b = journal::census_of(entries.push(e));
            let one = |is: bool|
                if is {
                    1nat
                } else {
                    0
                };
            &&& b.ctxs == a.ctxs + one(e.op is CtxCreate)
            &&& b.blobs == a.blobs + one(e.op is CreateBlob)
            &&& b.maps == a.maps + one(e.op is MapBlob)
            &&& b.attaches == a.attaches + one(e.op is CtxAttachResource)
            &&& b.scanouts == a.scanouts + one(e.op is SetScanout || e.op is SetScanoutBlob)
            &&& b.classic == a.classic + one(e.op is ResourceCreate2d || e.op is ResourceCreate3d)
            &&& b.backings == a.backings + one(e.op is AttachBacking)
            &&& b.blob_bytes == a.blob_bytes + (if e.op is CreateBlob {
                e.op->CreateBlob_size as nat
            } else {
                0
            })
        }),
{
    assert(entries.push(e).drop_last() =~= entries);
    assert(entries.push(e).last() == e);
}

} // verus!
