//! What a snapshot takes with it, and in which order a restore puts it back.
use crate::gpu::capture;
use crate::gpu::command::GpuCommand;
use crate::gpu::payload;
use crate::gpu::replay;
use crate::gpu::replay::{ReplayAction, ReplayAt, ReplayEvent, ReplayView};
use crate::gpu::scanout::VirtioGpuScanout;
use crate::gpu::virtio_gpu::{GpuView, ResourceCreate3D, ResourceCreateBlob};
use crate::gpu_snapshot::{GpuJournalEntryView, GpuJournalOpView, GpuSnapshotPayloadView};
use vstd::prelude::*;

verus! {

/// An op of the journal is carried out as the command was that made it: the same is asked for, and
/// the device is left the same.
pub proof fn law_replay_repeats_the_command(
    gpu: GpuView,
    ctx_id: u32,
    context_init: u32,
    debug_name: [u8; 64],
    resource_id: u32,
    create: ResourceCreate3D,
)
    ensures
        gpu.replay_op(
            GpuJournalOpView::CtxCreate {
                ctx_id,
                context_init,
                name: if vstd::utf8::valid_utf8(debug_name@) {
                    Some(vstd::utf8::decode_utf8(debug_name@))
                } else {
                    None
                },
            },
        ) == gpu.begin(ctx_id, GpuCommand::CtxCreate { context_init, debug_name }, Seq::empty(), false),
        gpu.replay_op(
            GpuJournalOpView::CtxAttachResource { ctx_id, resource_id, detached: false },
        ) == gpu.begin(ctx_id, GpuCommand::CtxAttachResource { resource_id }, Seq::empty(), false),
        gpu.replay_op(
            GpuJournalOpView::CtxAttachResource { ctx_id, resource_id, detached: true },
        ) == gpu.begin(ctx_id, GpuCommand::CtxAttachResource { resource_id }, Seq::empty(), false),
        gpu.replay_op(
            GpuJournalOpView::ResourceCreate3d {
                resource_id,
                target: create.target,
                format: create.format,
                bind: create.bind,
                width: create.width,
                height: create.height,
                depth: create.depth,
                array_size: create.array_size,
                last_level: create.last_level,
                nr_samples: create.nr_samples,
                flags: create.flags,
            },
        ) == gpu.begin(
            ctx_id,
            GpuCommand::ResourceCreate3d { resource_id, create },
            Seq::empty(),
            false,
        ),
{
}

/// The same of pictures, scanouts, mappings and the memory behind a resource.
pub proof fn law_replay_repeats_the_picture_commands(
    gpu: GpuView,
    ctx_id: u32,
    scanout_id: u32,
    resource_id: u32,
    width: u32,
    height: u32,
    format: u32,
    offset: u64,
    create: ResourceCreateBlob,
    bytes: Seq<u8>,
    nr_entries: u32,
    ranges: Seq<(u64, usize)>,
)
    requires
        bytes.len() > 0,
        payload::mem_entries(bytes, nr_entries) == Some(ranges),
    ensures
        gpu.replay_op(GpuJournalOpView::ResourceCreate2d { resource_id, format, width, height })
            == gpu.begin(
            ctx_id,
            GpuCommand::ResourceCreate2d { resource_id, format, width, height },
            Seq::empty(),
            false,
        ),
        gpu.replay_op(GpuJournalOpView::SetScanout { scanout_id, resource_id, width, height })
            == gpu.begin(
            ctx_id,
            GpuCommand::SetScanout { scanout_id, resource_id, width, height },
            Seq::empty(),
            false,
        ),
        gpu.replay_op(
            GpuJournalOpView::SetScanoutBlob { scanout_id, resource_id, width, height, format },
        ) == gpu.begin(
            ctx_id,
            GpuCommand::SetScanoutBlob { scanout_id, resource_id, width, height, format },
            Seq::empty(),
            false,
        ),
        gpu.replay_op(GpuJournalOpView::MapBlob { resource_id, offset }) == gpu.begin(
            ctx_id,
            GpuCommand::ResourceMapBlob { resource_id, offset },
            Seq::empty(),
            false,
        ),
        gpu.replay_op(GpuJournalOpView::AttachBacking { resource_id, backing: ranges })
            == gpu.begin(
            ctx_id,
            GpuCommand::ResourceAttachBacking { resource_id, nr_entries },
            bytes,
            false,
        ),
        gpu.replay_op(
            GpuJournalOpView::CreateBlob {
                ctx_id,
                resource_id,
                blob_mem: create.blob_mem,
                blob_flags: create.blob_flags,
                blob_id: create.blob_id,
                size: create.size,
                backing: ranges,
            },
        ) == gpu.begin(
            ctx_id,
            GpuCommand::ResourceCreateBlob { resource_id, create, nr_entries },
            bytes,
            false,
        ),
{
}

/// The journal creates this context.
pub open spec fn creates(ops: Seq<GpuJournalEntryView>, ctx: u32) -> bool {
    exists|i: int|
        0 <= i < ops.len() && ((#[trigger] ops[i]).op matches GpuJournalOpView::CtxCreate {
            ctx_id,
            ..
        } && ctx_id == ctx)
}

/// The journal maps this blob.
pub open spec fn maps(ops: Seq<GpuJournalEntryView>, id: u32) -> bool {
    exists|i: int|
        0 <= i < ops.len() && ((#[trigger] ops[i]).op matches GpuJournalOpView::MapBlob {
            resource_id,
            ..
        } && resource_id == id)
}

/// A snapshot asks for exactly the contexts that the journal creates and the blobs that it maps.
pub proof fn law_snapshot_asks_for_what_is_there(ops: Seq<GpuJournalEntryView>, ctx: u32, id: u32)
    ensures
        capture::contexts_of(ops).contains(ctx) <==> creates(ops, ctx),
        capture::mapped_of(ops).contains(id) <==> maps(ops, id),
    decreases ops.len(),
{
    if ops.len() > 0 {
        let short = ops.drop_last();
        law_snapshot_asks_for_what_is_there(short, ctx, id);
        lemma_pushed(capture::contexts_of(short), ctx);
        lemma_pushed(capture::mapped_of(short), id);
        if creates(short, ctx) {
            let i = choose|i: int|
                0 <= i < short.len() && ((#[trigger] short[i]).op matches GpuJournalOpView::CtxCreate {
                    ctx_id,
                    ..
                } && ctx_id == ctx);
            assert(ops[i] == short[i]);
        }
        if maps(short, id) {
            let i = choose|i: int|
                0 <= i < short.len() && ((#[trigger] short[i]).op matches GpuJournalOpView::MapBlob {
                    resource_id,
                    ..
                } && resource_id == id);
            assert(ops[i] == short[i]);
        }
        if creates(ops, ctx) {
            let i = choose|i: int|
                0 <= i < ops.len() && ((#[trigger] ops[i]).op matches GpuJournalOpView::CtxCreate {
                    ctx_id,
                    ..
                } && ctx_id == ctx);
            if i < ops.len() - 1 {
                assert(short[i] == ops[i]);
            }
        }
        if maps(ops, id) {
            let i = choose|i: int|
                0 <= i < ops.len() && ((#[trigger] ops[i]).op matches GpuJournalOpView::MapBlob {
                    resource_id,
                    ..
                } && resource_id == id);
            if i < ops.len() - 1 {
                assert(short[i] == ops[i]);
            }
        }
        assert(ops[ops.len() - 1] == ops.last());
    }
}

proof fn lemma_pushed(s: Seq<u32>, x: u32)
    ensures
        forall|y: u32| #[trigger] s.push(y).contains(x) == (s.contains(x) || y == x),
{
    assert forall|y: u32| #[trigger] s.push(y).contains(x) == (s.contains(x) || y == x) by {
        if s.contains(x) {
            let i = choose|i: int| 0 <= i < s.len() && s[i] == x;
            assert(s.push(y)[i] == x);
        }
        assert(s.push(y)[s.len() as int] == y);
        if s.push(y).contains(x) && y != x {
            let i = choose|i: int| 0 <= i < s.push(y).len() && s.push(y)[i] == x;
            assert(s[i] == x);
        }
    }
}

/// The frames of a snapshot are those of the scanouts that show something, in ascending order.
pub proof fn law_snapshot_has_every_frame(scanouts: Seq<Option<VirtioGpuScanout>>, s: u32)
    requires
        scanouts.len() <= 16,
    ensures
        capture::shown_of(scanouts).contains(s) <==> s < scanouts.len() && scanouts[s as int]
            is Some,
        forall|i: int, j: int|
            0 <= i < j < capture::shown_of(scanouts).len() ==> #[trigger] capture::shown_of(
                scanouts,
            )[i] < #[trigger] capture::shown_of(scanouts)[j],
        forall|i: int|
            0 <= i < capture::shown_of(scanouts).len() ==> #[trigger] capture::shown_of(scanouts)[i]
                < scanouts.len(),
    decreases scanouts.len(),
{
    if scanouts.len() > 0 {
        law_snapshot_has_every_frame(scanouts.drop_last(), s);
        lemma_pushed(capture::shown_of(scanouts.drop_last()), s);
    }
}

/// What the renderer gave of a context is in the snapshot under its number, each thing in its own
/// place; what it did not give is left out, and without a wire journal nothing is taken.
pub proof fn law_context_contents_are_kept(
    p: GpuSnapshotPayloadView,
    ctx_id: u32,
    j: Seq<u8>,
    s: Seq<u8>,
    m: Seq<(u64, Option<Seq<u8>>)>,
    c: Seq<u8>,
)
    ensures
        ({
            let all = p.with_context(ctx_id, Some(j), Some(s), Some(m), Some(c));
            let only = p.with_context(ctx_id, Some(j), None, None, None);
            &&& all.vkr_journals == p.vkr_journals.push((ctx_id, j))
            &&& all.sync_states == p.sync_states.push((ctx_id, s))
            &&& all.classic_contents == p.classic_contents.push((ctx_id, c))
            &&& all.memory_contents == p.memory_contents + capture::readable_memories(ctx_id, m)
            &&& all.ops == p.ops && all.blob_contents == p.blob_contents && all.cursor == p.cursor
                && all.displays == p.displays && all.scanout_frames == p.scanout_frames
            &&& only == (GpuSnapshotPayloadView {
                vkr_journals: p.vkr_journals.push((ctx_id, j)),
                ..p
            })
            &&& p.with_context(ctx_id, None, Some(s), Some(m), Some(c)) == p
            &&& p.with_blob(ctx_id, Some(j)).blob_contents == p.blob_contents.push((ctx_id, j))
            &&& p.with_blob(ctx_id, Some(j)).vkr_journals == p.vkr_journals
            &&& p.with_blob(ctx_id, None) == p
            &&& p.with_frame(None) == p
        }),
{
}

/// Every device memory that could be read is in the snapshot, with its context, its number and its
/// bytes, and nothing else is.
pub proof fn law_readable_memories_are_kept(
    ctx_id: u32,
    reads: Seq<(u64, Option<Seq<u8>>)>,
    e: (u32, u64, Seq<u8>),
)
    ensures
        capture::readable_memories(ctx_id, reads).contains(e) <==> e.0 == ctx_id && reads.contains(
            (e.1, Some(e.2)),
        ),
    decreases reads.len(),
{
    let v = capture::readable_memories(ctx_id, reads);
    if reads.len() > 0 {
        let short = reads.drop_last();
        law_readable_memories_are_kept(ctx_id, short, e);
        let before = capture::readable_memories(ctx_id, short);
        let r = (e.1, Some(e.2));
        if short.contains(r) {
            let i = choose|i: int| 0 <= i < short.len() && short[i] == r;
            assert(reads[i] == r);
        }
        if before.contains(e) {
            let i = choose|i: int| 0 <= i < before.len() && before[i] == e;
            assert(v[i] == e);
        }
        if reads.contains(r) {
            let i = choose|i: int| 0 <= i < reads.len() && reads[i] == r;
            if i < reads.len() - 1 {
                assert(short[i] == r);
            } else if e.0 == ctx_id {
                assert(v[before.len() as int] == e);
            }
        }
        if v.contains(e) {
            let i = choose|i: int| 0 <= i < v.len() && v[i] == e;
            if i < before.len() {
                assert(before[i] == e);
            } else {
                assert(reads[reads.len() - 1] == r);
            }
        }
    }
}

/// A wire journal is fed entry by entry, none twice and none left out, while the others stand
/// still. One that the renderer drops is counted, once and in its class.
pub proof fn law_wire_is_fed_in_turn(v: ReplayView, op: usize, w: usize, other: int, ok: bool)
    requires
        v.wf(),
        v.at == (ReplayAt::Wire { op, wire: w }) || v.at == (ReplayAt::Rest { wire: w }),
        v.fed[w as int] < v.wires[w as int].entries.len(),
        v.wires[w as int].entries.len() <= usize::MAX,
        0 <= other < v.fed.len(),
        other != w,
        v.tally.wire_failed < u32::MAX,
    ensures
        ({
            let after = v.after(ReplayEvent::Done(ok));
            let e = v.wires[w as int].entries[v.fed[w as int] as int];
            &&& v.action() matches ReplayAction::Feed { wire, entry, ring }
            &&& wire == w
            &&& entry == v.fed[w as int]
            &&& ring == if e.klass == 8 && e.ring_key != 0 {
                Some(e.ring_key)
            } else {
                None
            }
            &&& after.fed[w as int] == v.fed[w as int] + 1
            &&& after.fed[other] == v.fed[other]
            &&& after.ops == v.ops && after.wires == v.wires
            &&& after.tally.wire_failed == v.tally.wire_failed + (if ok {
                0int
            } else {
                1
            })
            &&& after.tally.op_failed == v.tally.op_failed
            &&& after.tally.content_failed == v.tally.content_failed
            &&& ok ==> after.tally.drops == v.tally.drops
            &&& !ok ==> forall|i: int|
                0 <= i < 9 ==> #[trigger] after.tally.drops[i] == (if i == (if e.klass < 8 {
                    e.klass as int
                } else {
                    8
                }) && v.tally.drops[i] < u32::MAX {
                    v.tally.drops[i] + 1
                } else {
                    v.tally.drops[i] as int
                })
        }),
{
}

/// Of a context's wire journals the last one counts.
pub proof fn law_last_wire_journal_counts(v: ReplayView, ctx_id: u32, w: int)
    requires
        0 <= w < v.wires.len(),
    ensures
        v.wire_of(ctx_id) matches Some(k) ==> 0 <= k < v.wires.len() && v.wires[k].ctx_id == ctx_id
            && (w > k ==> v.wires[w].ctx_id != ctx_id),
        v.wire_of(ctx_id) is None ==> v.wires[w].ctx_id != ctx_id,
{
    lemma_last_wire(v, ctx_id, v.wires.len() as int, w);
}

proof fn lemma_last_wire(v: ReplayView, ctx_id: u32, n: int, w: int)
    requires
        0 <= n <= v.wires.len(),
    ensures
        replay::last_wire(v.wires, ctx_id, n) matches Some(k) ==> 0 <= k < n && v.wires[k].ctx_id
            == ctx_id && (k < w < n ==> v.wires[w].ctx_id != ctx_id),
        replay::last_wire(v.wires, ctx_id, n) is None ==> (0 <= w < n ==> v.wires[w].ctx_id
            != ctx_id),
    decreases n,
{
    if n > 0 {
        lemma_last_wire(v, ctx_id, n - 1, w);
    }
}

/// What becomes of an op that was carried out or was not: a context that has a wire journal is
/// waited for, a blob whose content there is gets it, and any other op is followed by the next. A
/// context that cannot be made ends the restore, a scanout that cannot be shown does not count,
/// and any other op that fails is counted.
pub proof fn law_ops_are_followed(v: ReplayView, op: usize, rebased: Option<u64>)
    requires
        v.wf(),
        v.at == (ReplayAt::Run { op, rebased }),
        v.tally.op_failed < u32::MAX,
    ensures
        ({
            let o = v.ops[op as int].op;
            let done = v.after(ReplayEvent::Done(true));
            let failed = v.after(ReplayEvent::Done(false));
            &&& v.action() == (ReplayAction::RunOp { op })
            &&& done.tally == v.tally
            &&& rebased matches Some(n) ==> done.ops == v.ops.update(
                op as int,
                GpuJournalEntryView { vkr_seq: n, ..v.ops[op as int] },
            )
            &&& rebased is None ==> done.ops == v.ops
            &&& failed.ops == v.ops
            &&& match o {
                GpuJournalOpView::CtxCreate { ctx_id, .. } => {
                    &&& v.wire_of(ctx_id) is Some ==> done.action() == (
                    ReplayAction::BeginContext { ctx_id })
                    &&& failed.action() == (ReplayAction::Finish { ok: false })
                },
                GpuJournalOpView::SetScanout { .. } => failed.tally == v.tally,
                GpuJournalOpView::SetScanoutBlob { .. } => failed.tally == v.tally,
                _ => failed.tally.op_failed == v.tally.op_failed + 1,
            }
            &&& op + 1 < v.ops.len() && !(v.ops[op + 1].op is CreateBlob) && !(o is CtxCreate)
                && !(o is CreateBlob) ==> done.action() == (ReplayAction::RunOp {
                op: (op + 1) as usize,
            }) && failed.action() == (ReplayAction::RunOp { op: (op + 1) as usize })
        }),
{
    let o = v.ops[op as int].op;
    if let GpuJournalOpView::CtxCreate { ctx_id, .. } = o {
        let done = v.after(ReplayEvent::Done(true));
        assert(done.at == (ReplayAt::Begin { op }) || v.wire_of(ctx_id) is None);
    }
}

/// A context that cannot be replayed into ends the restore; one that can is followed by the next
/// op. A blob's content does not decide.
pub proof fn law_context_must_begin(v: ReplayView, op: usize)
    requires
        v.wf(),
        v.at == (ReplayAt::Begin { op }),
        op + 1 < v.ops.len(),
        !(v.ops[op + 1].op is CreateBlob),
    ensures
        v.after(ReplayEvent::Done(true)).action() == (ReplayAction::RunOp {
            op: (op + 1) as usize,
        }),
        v.after(ReplayEvent::Done(false)).action() == (ReplayAction::Finish { ok: false }),
{
}

proof fn lemma_first(s: Seq<u32>, x: u32, from: int, i: int)
    requires
        0 <= from,
    ensures
        replay::first_of(s, x, from) matches Some(k) ==> from <= k < s.len() && s[k] == x && (from
            <= i < k ==> s[i] != x),
        replay::first_of(s, x, from) is None ==> (from <= i < s.len() ==> s[i] != x),
    decreases s.len() - from,
{
    if from < s.len() && s[from] != x {
        lemma_first(s, x, from + 1, i);
    }
}

proof fn lemma_last(s: Seq<u32>, x: u32, n: int, i: int)
    requires
        0 <= n <= s.len(),
    ensures
        replay::last_of(s, x, n) matches Some(k) ==> 0 <= k < n && s[k] == x && (k < i < n ==> s[i]
            != x),
        replay::last_of(s, x, n) is None ==> (0 <= i < n ==> s[i] != x),
    decreases n,
{
    if n > 0 {
        lemma_last(s, x, n - 1, i);
    }
}

/// A blob that was made again gets its own content, the last that there is of it; one without a
/// content gets none.
pub proof fn law_blob_gets_its_content(v: ReplayView, op: usize, rebased: Option<u64>, i: int)
    requires
        v.wf(),
        v.at == (ReplayAt::Run { op, rebased }),
        v.ops[op as int].op is CreateBlob,
        0 <= i < v.blobs.len(),
        v.blobs.len() <= usize::MAX,
    ensures
        ({
            let id = v.ops[op as int].op->CreateBlob_resource_id;
            let done = v.after(ReplayEvent::Done(true));
            &&& v.blobs[i] == id ==> (done.action() matches ReplayAction::WriteBlob {
                resource_id,
                content,
            } && resource_id == id && i <= content < v.blobs.len() && v.blobs[content as int] == id)
            &&& done.action() matches ReplayAction::WriteBlob { resource_id, .. } ==> resource_id
                == id
        }),
{
    let id = v.ops[op as int].op->CreateBlob_resource_id;
    lemma_last(v.blobs, id, v.blobs.len() as int, i);
    let done = v.after(ReplayEvent::Done(true));
    match replay::last_of(v.blobs, id, v.blobs.len() as int) {
        Some(c) => {
            assert(done.at == (ReplayAt::Content { op, content: c as usize }));
        },
        None => {
            let moved = match rebased {
                Some(seq) => ReplayView {
                    ops: v.ops.update(
                        op as int,
                        GpuJournalEntryView { vkr_seq: seq, ..v.ops[op as int] },
                    ),
                    ..v
                },
                None => v,
            };
            lemma_no_content(moved, op + 1);
            assert(done.at == moved.enter_op(op + 1));
        },
    }
}

proof fn lemma_no_content(v: ReplayView, i: int)
    ensures
        !(v.enter_op(i) is Content),
{
    lemma_wire_no_content(v, 0);
}

proof fn lemma_wire_no_content(v: ReplayView, w: int)
    ensures
        !(v.enter_wire(w) is Content),
    decreases v.wires.len() - w,
{
    if 0 <= w < v.wires.len() {
        lemma_wire_no_content(v, w + 1);
    }
}

/// Behind its wire journal a context gets what only the GL renderer held, then its device
/// memories one by one, then its sync state, and its rings start. Each content is its own.
pub proof fn law_contents_belong_to_their_context(v: ReplayView, w: int, from: int)
    requires
        0 <= w < v.wires.len() <= usize::MAX,
        0 <= from,
        v.classics.len() <= usize::MAX,
        v.memories.len() <= usize::MAX,
        v.syncs.len() <= usize::MAX,
    ensures
        match v.enter_classic(w) {
            ReplayAt::Classic { wire, content } => wire == w && content < v.classics.len()
                && v.classics[content as int] == v.wires[w].ctx_id,
            at => at == v.enter_memory(w, 0),
        },
        match v.enter_memory(w, from) {
            ReplayAt::Memory { wire, content } => wire == w && from <= content < v.memories.len()
                && v.memories[content as int] == v.wires[w].ctx_id && forall|i: int|
                from <= i < content ==> #[trigger] v.memories[i] != v.wires[w].ctx_id,
            ReplayAt::Sync { wire, state } => wire == w && state < v.syncs.len()
                && v.syncs[state as int] == v.wires[w].ctx_id && forall|i: int|
                from <= i < v.memories.len() ==> #[trigger] v.memories[i] != v.wires[w].ctx_id,
            ReplayAt::End { wire } => wire == w && forall|i: int|
                0 <= i < v.syncs.len() ==> #[trigger] v.syncs[i] != v.wires[w].ctx_id,
            _ => false,
        },
        v.to(ReplayAt::End { wire: w as usize }).action() == (ReplayAction::EndContext {
            ctx_id: v.wires[w].ctx_id,
        }),
{
    let ctx = v.wires[w].ctx_id;
    lemma_first(v.classics, ctx, 0, 0);
    assert forall|i: int| true implies #[trigger] is_first(v.memories, ctx, from, i) by {
        lemma_first(v.memories, ctx, from, i);
    }
    assert forall|i: int| true implies #[trigger] is_first(v.syncs, ctx, 0, i) by {
        lemma_first(v.syncs, ctx, 0, i);
    }
    assert(is_first(v.memories, ctx, from, 0));
    assert(is_first(v.syncs, ctx, 0, 0));
    match replay::first_of(v.memories, ctx, from) {
        Some(k) => {
            assert forall|i: int| from <= i < k implies #[trigger] v.memories[i] != ctx by {
                assert(is_first(v.memories, ctx, from, i));
            }
        },
        None => {
            assert forall|i: int| from <= i < v.memories.len() implies #[trigger] v.memories[i]
                != ctx by {
                assert(is_first(v.memories, ctx, from, i));
            }
            if replay::first_of(v.syncs, ctx, 0) is None {
                assert forall|i: int| 0 <= i < v.syncs.len() implies #[trigger] v.syncs[i]
                    != ctx by {
                    assert(is_first(v.syncs, ctx, 0, i));
                }
            }
        },
    }
}

/// What the first place of `x` at or after `from` says of place `i`.
spec fn is_first(s: Seq<u32>, x: u32, from: int, i: int) -> bool {
    match replay::first_of(s, x, from) {
        Some(k) => from <= k < s.len() && s[k] == x && (from <= i < k ==> s[i] != x),
        None => from <= i < s.len() ==> s[i] != x,
    }
}

/// A content that could not be written is counted and nothing more; rings that do not start count
/// as a failed op.
pub proof fn law_failed_contents_are_counted(v: ReplayView, w: usize, c: usize)
    requires
        v.wf(),
        v.tally.content_failed < u32::MAX,
        v.tally.op_failed < u32::MAX,
    ensures
        v.at == (ReplayAt::Memory { wire: w, content: c }) || v.at == (ReplayAt::Classic {
            wire: w,
            content: c,
        }) ==> {
            &&& v.after(ReplayEvent::Done(false)).tally.content_failed == v.tally.content_failed + 1
            &&& v.after(ReplayEvent::Done(false)).tally.op_failed == v.tally.op_failed
            &&& v.after(ReplayEvent::Done(true)).tally == v.tally
        },
        v.at == (ReplayAt::Sync { wire: w, state: c }) ==> v.after(ReplayEvent::Done(false)).tally
            == v.tally && v.after(ReplayEvent::Done(false)).at == (ReplayAt::End { wire: w }),
        v.at == (ReplayAt::End { wire: w }) ==> {
            &&& v.after(ReplayEvent::Done(false)).tally.op_failed == v.tally.op_failed + 1
            &&& v.after(ReplayEvent::Done(true)).tally == v.tally
        },
{
}

/// What was attached for the replay only is detached again, every one of it and nothing else, in
/// order.
pub proof fn law_only_replayed_attaches_are_undone(v: ReplayView, from: int, i: int)
    requires
        0 <= from <= i < v.ops.len() <= usize::MAX,
    ensures
        ({
            let undone = |k: int|
                v.ops[k].op matches GpuJournalOpView::CtxAttachResource { detached, .. }
                    && detached;
            match v.enter_detach(from) {
                ReplayAt::Detach { op } => {
                    &&& from <= op < v.ops.len()
                    &&& undone(op as int)
                    &&& i < op ==> !undone(i)
                    &&& v.to(v.enter_detach(from)).action() == (ReplayAction::Detach {
                        ctx_id: v.ops[op as int].op->CtxAttachResource_ctx_id,
                        resource_id: v.ops[op as int].op->CtxAttachResource_resource_id,
                    })
                },
                _ => !undone(i),
            }
        }),
{
    lemma_next_detach(v.ops, from, i);
}

proof fn lemma_next_detach(ops: Seq<GpuJournalEntryView>, from: int, i: int)
    requires
        0 <= from,
    ensures
        replay::next_detach(ops, from) matches Some(k) ==> from <= k < ops.len()
            && replay::only_attached(ops[k].op) && (from <= i < k ==> !replay::only_attached(
            ops[i].op,
        )),
        replay::next_detach(ops, from) is None ==> (from <= i < ops.len()
            ==> !replay::only_attached(ops[i].op)),
    decreases ops.len() - from,
{
    if from < ops.len() && !replay::only_attached(ops[from].op) {
        lemma_next_detach(ops, from + 1, i);
    }
}

/// Every frame is presented, from the first on and in order, where no op was missed; where one was,
/// none is.
pub proof fn law_every_frame_is_presented(v: ReplayView, frame: usize, event: ReplayEvent)
    ensures
        v.tally.op_failed == 0 && v.frames > 0 ==> v.enter_frame(0) == (ReplayAt::Frame {
            frame: 0,
        }),
        v.tally.op_failed == 0 && v.frames == 0 ==> v.enter_frame(0) == (ReplayAt::Finished {
            ok: true,
        }),
        v.tally.op_failed != 0 ==> v.enter_frame(0) == (ReplayAt::Finished { ok: false }),
        v.tally.op_failed == 0 && frame + 1 < v.frames ==> v.to(ReplayAt::Frame { frame }).after(
            event,
        ).at == (ReplayAt::Frame { frame: (frame + 1) as usize }),
        v.tally.op_failed == 0 && frame + 1 >= v.frames ==> v.to(ReplayAt::Frame { frame }).after(
            event,
        ).at == (ReplayAt::Finished { ok: true }),
{
}

} // verus!
