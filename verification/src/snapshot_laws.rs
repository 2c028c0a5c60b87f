//! What holds of the snapshot payload as a whole: a payload reads back as it was written, and
//! nothing shorter than what was written reads at all.
use crate::codec;
use crate::codec::Decoded;
use crate::display;
use crate::display::DisplayInfoView;
use crate::gpu_snapshot;
use crate::gpu_snapshot::{
    CursorSnapshotView, GpuJournalEntryView, GpuJournalOpView, GpuSnapshotPayloadView,
    ScanoutFrameView,
};
use vstd::prelude::*;

verus! {

/// A list short enough that its length fits the 32-bit count in front of it.
pub open spec fn countable<T>(s: Seq<T>) -> bool {
    s.len() <= u32::MAX
}

/// An op whose variable-length part fits its 32-bit count.
pub open spec fn op_fits(op: GpuJournalOpView) -> bool {
    match op {
        GpuJournalOpView::CtxCreate { name: Some(name), .. } => countable(
            vstd::utf8::encode_utf8(name),
        ),
        GpuJournalOpView::CreateBlob { backing, .. } => countable(backing),
        GpuJournalOpView::AttachBacking { backing, .. } => countable(backing),
        _ => true,
    }
}

pub open spec fn tagged_fits(v: Seq<(u32, Seq<u8>)>) -> bool {
    &&& countable(v)
    &&& forall|i: int| 0 <= i < v.len() ==> (#[trigger] v[i]).1.len() <= usize::MAX
}

/// A payload in which every list fits the 32-bit count in front of it, and every byte string the
/// address space.
pub open spec fn payload_fits(p: GpuSnapshotPayloadView) -> bool {
    &&& countable(p.ops)
    &&& forall|i: int| 0 <= i < p.ops.len() ==> op_fits((#[trigger] p.ops[i]).op)
    &&& tagged_fits(p.vkr_journals)
    &&& tagged_fits(p.blob_contents)
    &&& countable(p.memory_contents)
    &&& forall|i: int|
        0 <= i < p.memory_contents.len() ==> (#[trigger] p.memory_contents[i]).2.len() <= usize::MAX
    &&& tagged_fits(p.sync_states)
    &&& p.cursor matches Some(c) ==> c.pixels.len() <= usize::MAX
    &&& tagged_fits(p.classic_contents)
    &&& countable(p.displays)
    &&& forall|i: int| 0 <= i < p.displays.len() ==> (#[trigger] p.displays[i]).wf()
    &&& countable(p.scanout_frames)
    &&& forall|i: int|
        0 <= i < p.scanout_frames.len() ==> (#[trigger] p.scanout_frames[i]).pixels.len()
            <= usize::MAX
}

/// The op as the reader gives it: an empty context name is no name.
pub open spec fn canonical_op(op: GpuJournalOpView) -> GpuJournalOpView {
    match op {
        GpuJournalOpView::CtxCreate {
            ctx_id,
            context_init,
            name: Some(name),
        } => if name.len() == 0 {
            GpuJournalOpView::CtxCreate { ctx_id, context_init, name: None }
        } else {
            op
        },
        _ => op,
    }
}

/// The payload as the reader gives it: its ops are canonical and numbered from 1.
pub open spec fn canonical(p: GpuSnapshotPayloadView) -> GpuSnapshotPayloadView {
    GpuSnapshotPayloadView {
        ops: p.ops.map(
            |i: int, e: GpuJournalEntryView|
                GpuJournalEntryView {
                    seq: (i + 1) as u64,
                    vkr_seq: e.vkr_seq,
                    op: canonical_op(e.op),
                },
        ),
        ..p
    }
}

pub proof fn lemma_u32s_round_trip(v: Seq<u32>, rest: Seq<u8>)
    ensures
        gpu_snapshot::dec_u32s(gpu_snapshot::enc_u32s(v) + rest, v.len()) == Some((v, rest)),
{
    broadcast use codec::lemma_u32_round_trip;

    codec::lemma_list_round_trip(
        v,
        |x: u32| codec::enc_u32(x),
        |s: Seq<u8>| codec::dec_u32(s),
        rest,
    );
}

/// Each range takes sixteen bytes.
proof fn lemma_ranges_len(b: Seq<(u64, usize)>)
    ensures
        codec::enc_list(b, |r: (u64, usize)| gpu_snapshot::enc_range(r)).len() == 16 * b.len(),
    decreases b.len(),
{
    if b.len() > 0 {
        lemma_ranges_len(b.drop_last());
        codec::lemma_le_bytes_len(b.last().0 as nat, 8);
        codec::lemma_le_bytes_len((b.last().1 as u64) as nat, 8);
    }
}

proof fn lemma_backing_round_trip(b: Seq<(u64, usize)>, rest: Seq<u8>)
    requires
        countable(b),
    ensures
        gpu_snapshot::dec_backing(gpu_snapshot::enc_backing(b) + rest) == Some((b, rest)),
{
    broadcast use codec::group_round_trip;

    let f = |r: (u64, usize)| gpu_snapshot::enc_range(r);
    let g = |s: Seq<u8>| gpu_snapshot::dec_range(s);
    let list = codec::enc_list(b, f);
    lemma_ranges_len(b);
    assert((list + rest).len() / 16 >= b.len()) by (nonlinear_arith)
        requires
            (list + rest).len() >= 16 * b.len(),
    ;
    codec::lemma_list_round_trip(b, f, g, rest);
}

proof fn lemma_name_round_trip(name: Option<Seq<char>>, rest: Seq<u8>)
    requires
        name matches Some(n) ==> n.len() > 0 && countable(vstd::utf8::encode_utf8(n)),
    ensures
        gpu_snapshot::dec_name(gpu_snapshot::enc_name(name) + rest) == Some((name, rest)),
{
    broadcast use codec::group_round_trip;

    let chars = match name {
        Some(n) => n,
        None => Seq::empty(),
    };
    let bytes = vstd::utf8::encode_utf8(chars);
    vstd::utf8::encode_utf8_valid_utf8(chars);
    vstd::utf8::encode_utf8_decode_utf8(chars);
    assert(name is None ==> bytes =~= Seq::empty());
    codec::lemma_bytes_round_trip(bytes, rest, bytes.len());
}

/// No more than its canonical form is written of an op.
proof fn lemma_canonical_same(op: GpuJournalOpView)
    ensures
        gpu_snapshot::enc_op(canonical_op(op)) == gpu_snapshot::enc_op(op),
{
    match op {
        GpuJournalOpView::CtxCreate { name: Some(name), .. } => {
            if name.len() == 0 {
                assert(name =~= Seq::empty());
            }
        },
        _ => {},
    }
}

proof fn lemma_plain_op_round_trip(tag: u8, v: Seq<u32>, rest: Seq<u8>)
    requires
        gpu_snapshot::plain_fields(tag) == Some(v.len()),
    ensures
        gpu_snapshot::dec_op((codec::enc_u8(tag) + gpu_snapshot::enc_u32s(v)) + rest) == Some(
            (gpu_snapshot::plain_op(tag, v), rest),
        ),
{
    broadcast use codec::group_round_trip;

    lemma_u32s_round_trip(v, rest);
}

proof fn lemma_ctx_create_round_trip(
    ctx_id: u32,
    context_init: u32,
    name: Option<Seq<char>>,
    rest: Seq<u8>,
)
    requires
        name matches Some(n) ==> n.len() > 0 && countable(vstd::utf8::encode_utf8(n)),
    ensures
        ({
            let op = GpuJournalOpView::CtxCreate { ctx_id, context_init, name };
            gpu_snapshot::dec_op(gpu_snapshot::enc_op(op) + rest) == Some((op, rest))
        }),
{
    let v = seq![ctx_id, context_init];
    let e2 = gpu_snapshot::enc_name(name);
    let e1 = gpu_snapshot::enc_u32s(v);
    codec::lemma_concat_assoc(codec::enc_u8(1), e1 + e2, rest);
    codec::lemma_concat_assoc(e1, e2, rest);
    codec::lemma_u8_round_trip(1, e1 + (e2 + rest));
    lemma_u32s_round_trip(v, e2 + rest);
    lemma_name_round_trip(name, rest);
}

proof fn lemma_create_blob_round_trip(
    v: Seq<u32>,
    blob_id: u64,
    size: u64,
    backing: Seq<(u64, usize)>,
    rest: Seq<u8>,
)
    requires
        v.len() == 4,
        countable(backing),
    ensures
        ({
            let op = GpuJournalOpView::CreateBlob {
                ctx_id: v[0],
                resource_id: v[1],
                blob_mem: v[2],
                blob_flags: v[3],
                blob_id,
                size,
                backing,
            };
            gpu_snapshot::dec_op(gpu_snapshot::enc_op(op) + rest) == Some((op, rest))
        }),
{
    let w = seq![v[0], v[1], v[2], v[3]];
    let e4 = gpu_snapshot::enc_backing(backing);
    let e3 = codec::enc_u64(size);
    let e2 = codec::enc_u64(blob_id);
    let e1 = gpu_snapshot::enc_u32s(w);
    codec::lemma_concat_assoc(codec::enc_u8(3), e1 + (e2 + (e3 + e4)), rest);
    codec::lemma_concat_assoc(e1, e2 + (e3 + e4), rest);
    codec::lemma_concat_assoc(e2, e3 + e4, rest);
    codec::lemma_concat_assoc(e3, e4, rest);
    codec::lemma_u8_round_trip(3, e1 + (e2 + (e3 + (e4 + rest))));
    lemma_u32s_round_trip(w, e2 + (e3 + (e4 + rest)));
    codec::lemma_u64_round_trip(blob_id, e3 + (e4 + rest));
    codec::lemma_u64_round_trip(size, e4 + rest);
    lemma_backing_round_trip(backing, rest);
}

proof fn lemma_small_ops_round_trip(
    resource_id: u32,
    offset: u64,
    backing: Seq<(u64, usize)>,
    rest: Seq<u8>,
)
    requires
        countable(backing),
    ensures
        ({
            let op = GpuJournalOpView::MapBlob { resource_id, offset };
            gpu_snapshot::dec_op(gpu_snapshot::enc_op(op) + rest) == Some((op, rest))
        }),
        ({
            let op = GpuJournalOpView::AttachBacking { resource_id, backing };
            gpu_snapshot::dec_op(gpu_snapshot::enc_op(op) + rest) == Some((op, rest))
        }),
{
    let e1 = codec::enc_u32(resource_id);
    let e2 = codec::enc_u64(offset);
    let e3 = gpu_snapshot::enc_backing(backing);
    codec::lemma_concat_assoc(codec::enc_u8(4), e1 + e2, rest);
    codec::lemma_concat_assoc(e1, e2, rest);
    codec::lemma_u8_round_trip(4, e1 + (e2 + rest));
    codec::lemma_u32_round_trip(resource_id, e2 + rest);
    codec::lemma_u64_round_trip(offset, rest);
    codec::lemma_concat_assoc(codec::enc_u8(8), e1 + e3, rest);
    codec::lemma_concat_assoc(e1, e3, rest);
    codec::lemma_u8_round_trip(8, e1 + (e3 + rest));
    codec::lemma_u32_round_trip(resource_id, e3 + rest);
    lemma_backing_round_trip(backing, rest);
}

proof fn lemma_op_round_trip(op: GpuJournalOpView, rest: Seq<u8>)
    requires
        op_fits(op),
        canonical_op(op) == op,
    ensures
        gpu_snapshot::dec_op(gpu_snapshot::enc_op(op) + rest) == Some((op, rest)),
{
    match op {
        GpuJournalOpView::CtxCreate { ctx_id, context_init, name } => {
            lemma_ctx_create_round_trip(ctx_id, context_init, name, rest);
        },
        GpuJournalOpView::CtxAttachResource { ctx_id, resource_id, detached } => {
            let tag: u8 = if detached {
                10
            } else {
                2
            };
            lemma_plain_op_round_trip(tag, seq![ctx_id, resource_id], rest);
        },
        GpuJournalOpView::CreateBlob {
            ctx_id,
            resource_id,
            blob_mem,
            blob_flags,
            blob_id,
            size,
            backing,
        } => {
            lemma_create_blob_round_trip(
                seq![ctx_id, resource_id, blob_mem, blob_flags],
                blob_id,
                size,
                backing,
                rest,
            );
        },
        GpuJournalOpView::MapBlob { resource_id, offset } => {
            lemma_small_ops_round_trip(resource_id, offset, Seq::empty(), rest);
        },
        GpuJournalOpView::SetScanoutBlob { scanout_id, resource_id, width, height, format } => {
            lemma_plain_op_round_trip(
                5,
                seq![scanout_id, resource_id, width, height, format],
                rest,
            );
        },
        GpuJournalOpView::ResourceCreate3d {
            resource_id,
            target,
            format,
            bind,
            width,
            height,
            depth,
            array_size,
            last_level,
            nr_samples,
            flags,
        } => {
            lemma_plain_op_round_trip(
                6,
                seq![
                    resource_id,
                    target,
                    format,
                    bind,
                    width,
                    height,
                    depth,
                    array_size,
                    last_level,
                    nr_samples,
                    flags,
                ],
                rest,
            );
        },
        GpuJournalOpView::ResourceCreate2d { resource_id, format, width, height } => {
            lemma_plain_op_round_trip(7, seq![resource_id, format, width, height], rest);
        },
        GpuJournalOpView::AttachBacking { resource_id, backing } => {
            lemma_small_ops_round_trip(resource_id, 0, backing, rest);
        },
        GpuJournalOpView::SetScanout { scanout_id, resource_id, width, height } => {
            lemma_plain_op_round_trip(9, seq![scanout_id, resource_id, width, height], rest);
        },
    }
}

/// Two lists that encode item by item alike encode alike.
proof fn lemma_list_same<T>(a: Seq<T>, b: Seq<T>, f: spec_fn(T) -> Seq<u8>)
    requires
        a.len() == b.len(),
        forall|i: int| 0 <= i < a.len() ==> f(#[trigger] a[i]) == f(b[i]),
    ensures
        codec::enc_list(a, f) == codec::enc_list(b, f),
    decreases a.len(),
{
    if a.len() > 0 {
        assert forall|i: int| 0 <= i < a.drop_last().len() implies f(#[trigger] a.drop_last()[i])
            == f(b.drop_last()[i]) by {
            assert(f(a[i]) == f(b[i]));
        }
        lemma_list_same(a.drop_last(), b.drop_last(), f);
        assert(f(a[a.len() - 1]) == f(b[a.len() - 1]));
    }
}

proof fn lemma_ops_round_trip(ops: Seq<GpuJournalEntryView>, rest: Seq<u8>)
    requires
        countable(ops),
        forall|i: int| 0 <= i < ops.len() ==> op_fits((#[trigger] ops[i]).op),
    ensures
        ({
            let written = gpu_snapshot::enc_ops(gpu_snapshot::unnumbered(ops));
            let read = ops.map_values(|e: GpuJournalEntryView| (e.vkr_seq, canonical_op(e.op)));
            gpu_snapshot::dec_ops(written + rest) == Some((read, rest))
        }),
{
    broadcast use codec::group_round_trip;

    let f = |e: (u64, GpuJournalOpView)| gpu_snapshot::enc_entry(e);
    let g = |s: Seq<u8>| gpu_snapshot::dec_entry(s);
    let items = gpu_snapshot::unnumbered(ops);
    let read = ops.map_values(|e: GpuJournalEntryView| (e.vkr_seq, canonical_op(e.op)));
    assert forall|i: int| 0 <= i < items.len() implies f(#[trigger] items[i]) == f(read[i]) by {
        lemma_canonical_same(ops[i].op);
    }
    lemma_list_same(items, read, f);
    assert forall|i: int, r: Seq<u8>| 0 <= i < read.len() implies #[trigger] g(f(read[i]) + r)
        == Some((read[i], r)) by {
        assert(op_fits(ops[i].op));
        lemma_op_round_trip(read[i].1, r);
    }
    codec::lemma_list_round_trip(read, f, g, rest);
}

proof fn lemma_tagged_round_trip(v: Seq<(u32, Seq<u8>)>, rest: Seq<u8>)
    requires
        tagged_fits(v),
    ensures
        gpu_snapshot::dec_tagged(gpu_snapshot::enc_tagged(v) + rest) == Some((v, rest)),
{
    broadcast use codec::group_round_trip;

    let f = |e: (u32, Seq<u8>)| gpu_snapshot::enc_tagged_entry(e);
    let g = |s: Seq<u8>| gpu_snapshot::dec_tagged_entry(s);
    codec::lemma_list_round_trip(v, f, g, rest);
}

proof fn lemma_memory_round_trip(v: Seq<(u32, u64, Seq<u8>)>, rest: Seq<u8>)
    requires
        countable(v),
        forall|i: int| 0 <= i < v.len() ==> (#[trigger] v[i]).2.len() <= usize::MAX,
    ensures
        gpu_snapshot::dec_memory(gpu_snapshot::enc_memory(v) + rest) == Some((v, rest)),
{
    broadcast use codec::group_round_trip;

    let f = |e: (u32, u64, Seq<u8>)| gpu_snapshot::enc_memory_entry(e);
    let g = |s: Seq<u8>| gpu_snapshot::dec_memory_entry(s);
    codec::lemma_list_round_trip(v, f, g, rest);
}

proof fn lemma_cursor_round_trip(c: Option<CursorSnapshotView>, rest: Seq<u8>)
    requires
        c matches Some(c) ==> c.pixels.len() <= usize::MAX,
    ensures
        gpu_snapshot::dec_cursor(gpu_snapshot::enc_cursor(c) + rest) == Some((c, rest)),
{
    broadcast use codec::group_round_trip;

    match c {
        Some(c) => {
            let v = seq![c.scanout_id, c.width, c.height, c.hot_x, c.hot_y, c.format, c.x, c.y];
            lemma_u32s_round_trip(v, codec::enc_blob(c.pixels) + rest);
        },
        None => {},
    }
}

proof fn lemma_displays_round_trip(v: Seq<DisplayInfoView>, rest: Seq<u8>)
    requires
        countable(v),
        forall|i: int| 0 <= i < v.len() ==> (#[trigger] v[i]).wf(),
    ensures
        gpu_snapshot::dec_displays(gpu_snapshot::enc_displays(v) + rest) == Some((v, rest)),
{
    broadcast use {codec::group_round_trip, display::lemma_display_round_trip};

    let f = |d: DisplayInfoView| display::enc_display(d);
    let g = |s: Seq<u8>| display::dec_display(s);
    codec::lemma_list_round_trip(v, f, g, rest);
}

proof fn lemma_frames_round_trip(v: Seq<ScanoutFrameView>, rest: Seq<u8>)
    requires
        countable(v),
        forall|i: int| 0 <= i < v.len() ==> (#[trigger] v[i]).pixels.len() <= usize::MAX,
    ensures
        gpu_snapshot::dec_frames(gpu_snapshot::enc_frames(v) + rest) == Some((v, rest)),
{
    broadcast use codec::group_round_trip;

    let f = |f: ScanoutFrameView| gpu_snapshot::enc_frame(f);
    let g = |s: Seq<u8>| gpu_snapshot::dec_frame(s);
    assert forall|i: int, r: Seq<u8>| 0 <= i < v.len() implies #[trigger] g(f(v[i]) + r) == Some(
        (v[i], r),
    ) by {
        lemma_u32s_round_trip(
            seq![v[i].scanout_id, v[i].width, v[i].height],
            codec::enc_blob(v[i].pixels) + r,
        );
    }
    codec::lemma_list_round_trip(v, f, g, rest);
}

proof fn lemma_sections_round_trip(p: GpuSnapshotPayloadView, rest: Seq<u8>)
    requires
        payload_fits(p),
    ensures
        ({
            let read = p.ops.map_values(|e: GpuJournalEntryView| (e.vkr_seq, canonical_op(e.op)));
            gpu_snapshot::dec_sections(read, gpu_snapshot::enc_sections(p) + rest) == Some((canonical(p), rest))
        }),
{
    let e9 = gpu_snapshot::enc_frames(p.scanout_frames);
    let e8 = gpu_snapshot::enc_displays(p.displays);
    let e7 = gpu_snapshot::enc_tagged(p.classic_contents);
    let e6 = gpu_snapshot::enc_cursor(p.cursor);
    let e5 = gpu_snapshot::enc_tagged(p.sync_states);
    let e4 = gpu_snapshot::enc_memory(p.memory_contents);
    let e3 = gpu_snapshot::enc_tagged(p.blob_contents);
    let e2 = gpu_snapshot::enc_tagged(p.vkr_journals);
    let t8 = e8 + e9;
    let t7 = e7 + t8;
    let t6 = e6 + t7;
    let t5 = e5 + t6;
    let t4 = e4 + t5;
    let t3 = e3 + t4;
    codec::lemma_concat_assoc(e8, e9, rest);
    codec::lemma_concat_assoc(e7, t8, rest);
    codec::lemma_concat_assoc(e6, t7, rest);
    codec::lemma_concat_assoc(e5, t6, rest);
    codec::lemma_concat_assoc(e4, t5, rest);
    codec::lemma_concat_assoc(e3, t4, rest);
    codec::lemma_concat_assoc(e2, t3, rest);
    lemma_tagged_round_trip(p.vkr_journals, t3 + rest);
    lemma_tagged_round_trip(p.blob_contents, t4 + rest);
    lemma_memory_round_trip(p.memory_contents, t5 + rest);
    lemma_tagged_round_trip(p.sync_states, t6 + rest);
    lemma_cursor_round_trip(p.cursor, t7 + rest);
    lemma_tagged_round_trip(p.classic_contents, t8 + rest);
    lemma_displays_round_trip(p.displays, e9 + rest);
    lemma_frames_round_trip(p.scanout_frames, rest);
    let read = p.ops.map_values(|e: GpuJournalEntryView| (e.vkr_seq, canonical_op(e.op)));
    assert(gpu_snapshot::numbered(read) =~= canonical(p).ops);
}

/// A payload reads back as it was written, whatever follows it: every section comes back as it
/// was, and the ops come back numbered from 1, an empty context name as none.
pub proof fn law_payload_round_trips(p: GpuSnapshotPayloadView, rest: Seq<u8>)
    requires
        payload_fits(p),
    ensures
        gpu_snapshot::dec_payload(gpu_snapshot::enc_payload(p) + rest) == Some(
            (canonical(p), rest),
        ),
{
    let magic = codec::enc_u32(gpu_snapshot::PAYLOAD_MAGIC);
    let version = codec::enc_u32(gpu_snapshot::PAYLOAD_VERSION);
    let ops = gpu_snapshot::enc_ops(gpu_snapshot::unnumbered(p.ops));
    let tail = gpu_snapshot::enc_sections(p);
    codec::lemma_concat_assoc(magic, version + (ops + tail), rest);
    codec::lemma_concat_assoc(version, ops + tail, rest);
    codec::lemma_concat_assoc(ops, tail, rest);
    codec::lemma_u32_round_trip(gpu_snapshot::PAYLOAD_MAGIC, version + (ops + (tail + rest)));
    codec::lemma_u32_round_trip(gpu_snapshot::PAYLOAD_VERSION, ops + (tail + rest));
    lemma_ops_round_trip(p.ops, tail + rest);
    lemma_sections_round_trip(p, rest);
}

proof fn lemma_u32s_extends(s: Seq<u8>, t: Seq<u8>, n: nat)
    ensures
        codec::extends(gpu_snapshot::dec_u32s(s, n), gpu_snapshot::dec_u32s(s + t, n), t),
{
    broadcast use codec::lemma_u32_extends;

    codec::lemma_list_extends(s, t, n, |s: Seq<u8>| codec::dec_u32(s));
}

proof fn lemma_backing_extends(s: Seq<u8>, t: Seq<u8>)
    ensures
        codec::extends(gpu_snapshot::dec_backing(s), gpu_snapshot::dec_backing(s + t), t),
{
    broadcast use codec::group_extends;

    let g = |s: Seq<u8>| gpu_snapshot::dec_range(s);
    match codec::dec_count(s, 16) {
        Some((n, rest)) => {
            codec::lemma_list_extends(rest, t, n as nat, g);
        },
        None => {},
    }
}

proof fn lemma_name_extends(s: Seq<u8>, t: Seq<u8>)
    ensures
        codec::extends(gpu_snapshot::dec_name(s), gpu_snapshot::dec_name(s + t), t),
{
    broadcast use codec::group_extends;

}

proof fn lemma_op_tagged_extends(tag: u8, s: Seq<u8>, t: Seq<u8>)
    ensures
        codec::extends(gpu_snapshot::dec_op_tagged(tag, s), gpu_snapshot::dec_op_tagged(tag, s + t), t),
{
    match gpu_snapshot::plain_fields(tag) {
        Some(n) => {
            lemma_u32s_extends(s, t, n);
        },
        None => {
            if tag == 1 {
                lemma_u32s_extends(s, t, 2);
                match gpu_snapshot::dec_u32s(s, 2) {
                    Some((v, rest)) => {
                        lemma_name_extends(rest, t);
                    },
                    None => {},
                }
            } else if tag == 3 {
                lemma_u32s_extends(s, t, 4);
                match gpu_snapshot::dec_u32s(s, 4) {
                    Some((v, s)) => {
                        codec::lemma_u64_extends(s, t);
                        match codec::dec_u64(s) {
                            Some((blob_id, s)) => {
                                codec::lemma_u64_extends(s, t);
                                match codec::dec_u64(s) {
                                    Some((size, s)) => {
                                        lemma_backing_extends(s, t);
                                    },
                                    None => {},
                                }
                            },
                            None => {},
                        }
                    },
                    None => {},
                }
            } else if tag == 4 {
                broadcast use codec::group_extends;

            } else if tag == 8 {
                codec::lemma_u32_extends(s, t);
                match codec::dec_u32(s) {
                    Some((resource_id, s)) => {
                        lemma_backing_extends(s, t);
                    },
                    None => {},
                }
            }
        },
    }
}

proof fn lemma_entry_extends(s: Seq<u8>, t: Seq<u8>)
    ensures
        codec::extends(gpu_snapshot::dec_entry(s), gpu_snapshot::dec_entry(s + t), t),
{
    codec::lemma_u64_extends(s, t);
    match codec::dec_u64(s) {
        Some((vkr_seq, s)) => {
            codec::lemma_u8_extends(s, t);
            match codec::dec_u8(s) {
                Some((tag, s)) => {
                    lemma_op_tagged_extends(tag, s, t);
                },
                None => {},
            }
        },
        None => {},
    }
}

/// A counted list of extension-stable items is extension-stable.
proof fn lemma_counted_extends<T>(s: Seq<u8>, t: Seq<u8>, g: spec_fn(Seq<u8>) -> Decoded<T>)
    requires
        forall|s: Seq<u8>, t: Seq<u8>| codec::extends(g(s), #[trigger] g(s + t), t),
    ensures
        codec::extends(counted(s, g), counted(s + t, g), t),
{
    codec::lemma_u32_extends(s, t);
    match codec::dec_u32(s) {
        Some((n, s)) => {
            codec::lemma_list_extends(s, t, n as nat, g);
        },
        None => {},
    }
}

/// A 32-bit count and that many items.
pub open spec fn counted<T>(s: Seq<u8>, g: spec_fn(Seq<u8>) -> Decoded<T>) -> Decoded<Seq<T>> {
    match codec::dec_u32(s) {
        Some((n, s)) => codec::dec_list(s, n as nat, g),
        None => None,
    }
}

proof fn lemma_ops_extends(s: Seq<u8>, t: Seq<u8>)
    ensures
        codec::extends(gpu_snapshot::dec_ops(s), gpu_snapshot::dec_ops(s + t), t),
{
    let g = |s: Seq<u8>| gpu_snapshot::dec_entry(s);
    assert forall|s: Seq<u8>, t: Seq<u8>| codec::extends(g(s), #[trigger] g(s + t), t) by {
        lemma_entry_extends(s, t);
    }
    lemma_counted_extends(s, t, g);
}

proof fn lemma_tagged_extends(s: Seq<u8>, t: Seq<u8>)
    ensures
        codec::extends(gpu_snapshot::dec_tagged(s), gpu_snapshot::dec_tagged(s + t), t),
{
    let g = |s: Seq<u8>| gpu_snapshot::dec_tagged_entry(s);
    assert forall|s: Seq<u8>, t: Seq<u8>| codec::extends(g(s), #[trigger] g(s + t), t) by {
        broadcast use codec::group_extends;

    }
    lemma_counted_extends(s, t, g);
}

proof fn lemma_memory_extends(s: Seq<u8>, t: Seq<u8>)
    ensures
        codec::extends(gpu_snapshot::dec_memory(s), gpu_snapshot::dec_memory(s + t), t),
{
    let g = |s: Seq<u8>| gpu_snapshot::dec_memory_entry(s);
    assert forall|s: Seq<u8>, t: Seq<u8>| codec::extends(g(s), #[trigger] g(s + t), t) by {
        broadcast use codec::group_extends;

    }
    lemma_counted_extends(s, t, g);
}

proof fn lemma_cursor_extends(s: Seq<u8>, t: Seq<u8>)
    ensures
        codec::extends(gpu_snapshot::dec_cursor(s), gpu_snapshot::dec_cursor(s + t), t),
{
    codec::lemma_u8_extends(s, t);
    match codec::dec_u8(s) {
        Some((tag, s)) => {
            let n: nat = if tag == 2 {
                8
            } else {
                7
            };
            lemma_u32s_extends(s, t, n);
            match gpu_snapshot::dec_u32s(s, n) {
                Some((v, s)) => {
                    codec::lemma_blob_extends(s, t);
                },
                None => {},
            }
        },
        None => {},
    }
}

proof fn lemma_displays_extends(s: Seq<u8>, t: Seq<u8>)
    ensures
        codec::extends(gpu_snapshot::dec_displays(s), gpu_snapshot::dec_displays(s + t), t),
{
    let g = |s: Seq<u8>| display::dec_display(s);
    assert forall|s: Seq<u8>, t: Seq<u8>| codec::extends(g(s), #[trigger] g(s + t), t) by {
        display::lemma_display_extends(s, t);
    }
    lemma_counted_extends(s, t, g);
}

proof fn lemma_frames_extends(s: Seq<u8>, t: Seq<u8>)
    ensures
        codec::extends(gpu_snapshot::dec_frames(s), gpu_snapshot::dec_frames(s + t), t),
{
    let g = |s: Seq<u8>| gpu_snapshot::dec_frame(s);
    assert forall|s: Seq<u8>, t: Seq<u8>| codec::extends(g(s), #[trigger] g(s + t), t) by {
        lemma_u32s_extends(s, t, 3);
        match gpu_snapshot::dec_u32s(s, 3) {
            Some((v, s)) => {
                codec::lemma_blob_extends(s, t);
            },
            None => {},
        }
    }
    lemma_counted_extends(s, t, g);
}

proof fn lemma_sections_extends(ops: Seq<(u64, GpuJournalOpView)>, s: Seq<u8>, t: Seq<u8>)
    ensures
        codec::extends(gpu_snapshot::dec_sections(ops, s), gpu_snapshot::dec_sections(ops, s + t), t),
{
    if gpu_snapshot::dec_sections(ops, s) is Some {
        lemma_tagged_extends(s, t);
        let s2 = gpu_snapshot::dec_tagged(s).unwrap().1;
        lemma_tagged_extends(s2, t);
        let s3 = gpu_snapshot::dec_tagged(s2).unwrap().1;
        lemma_memory_extends(s3, t);
        let s4 = gpu_snapshot::dec_memory(s3).unwrap().1;
        lemma_tagged_extends(s4, t);
        let s5 = gpu_snapshot::dec_tagged(s4).unwrap().1;
        lemma_cursor_extends(s5, t);
        let s6 = gpu_snapshot::dec_cursor(s5).unwrap().1;
        lemma_tagged_extends(s6, t);
        let s7 = gpu_snapshot::dec_tagged(s6).unwrap().1;
        lemma_displays_extends(s7, t);
        let s8 = gpu_snapshot::dec_displays(s7).unwrap().1;
        lemma_frames_extends(s8, t);
    }
}

/// What reads as a payload still does, and reads the same, when more bytes follow.
pub proof fn law_payload_extends(s: Seq<u8>, t: Seq<u8>)
    ensures
        codec::extends(gpu_snapshot::dec_payload(s), gpu_snapshot::dec_payload(s + t), t),
{
    if gpu_snapshot::dec_payload(s) is Some {
        codec::lemma_u32_extends(s, t);
        let s1 = codec::dec_u32(s).unwrap().1;
        codec::lemma_u32_extends(s1, t);
        let s2 = codec::dec_u32(s1).unwrap().1;
        lemma_ops_extends(s2, t);
        let (ops, s3) = gpu_snapshot::dec_ops(s2).unwrap();
        lemma_sections_extends(ops, s3, t);
    }
}

/// A payload cut off anywhere before its end is refused.
pub proof fn law_truncated_payload_refused(p: GpuSnapshotPayloadView, n: int)
    requires
        payload_fits(p),
        0 <= n < gpu_snapshot::enc_payload(p).len(),
    ensures
        gpu_snapshot::dec_payload(gpu_snapshot::enc_payload(p).take(n)) is None,
{
    let whole = gpu_snapshot::enc_payload(p);
    let s = whole.take(n);
    let t = whole.skip(n);
    assert(s + t =~= whole);
    assert(whole + Seq::empty() =~= whole);
    law_payload_round_trips(p, Seq::empty());
    law_payload_extends(s, t);
    match gpu_snapshot::dec_payload(s) {
        Some((v, rest)) => {
            assert((rest + t).len() > 0);
        },
        None => {},
    }
}

} // verus!
