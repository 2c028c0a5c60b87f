//! Where each field of the snapshot lies, byte by byte.
use crate::codec;
use crate::display;
use crate::display::{
    DetailedMode, DisplayInfoEdidView, DisplayInfoView, EdidIdentityView, EdidParamsView,
    PhysicalSize, RefreshRange, StandardTiming,
};
use crate::gpu_snapshot;
use crate::gpu_snapshot::{
    CursorSnapshotView, GpuJournalOpView, GpuSnapshotPayloadView, ScanoutFrameView,
};
use vstd::prelude::*;

verus! {

/// The number in `n` bytes from `at`, low byte first.
pub open spec fn num(s: Seq<u8>, at: int, n: int) -> nat {
    codec::le_value(s.subrange(at, at + n))
}

proof fn lemma_widths(a: u16, b: u32, c: u64)
    ensures
        codec::enc_u16(a).len() == 2,
        codec::enc_u32(b).len() == 4,
        codec::enc_u64(c).len() == 8,
        codec::le_value(codec::enc_u16(a)) == a,
        codec::le_value(codec::enc_u32(b)) == b,
        codec::le_value(codec::enc_u64(c)) == c,
{
    codec::lemma_le_bounds();
    codec::lemma_le_bytes_len(a as nat, 2);
    codec::lemma_le_bytes_len(b as nat, 4);
    codec::lemma_le_bytes_len(c as nat, 8);
    codec::lemma_le_round_trip(a as nat, 2);
    codec::lemma_le_round_trip(b as nat, 4);
    codec::lemma_le_round_trip(c as nat, 8);
}

proof fn lemma_u16_at(head: Seq<u8>, v: u16, tail: Seq<u8>)
    ensures
        num(head + (codec::enc_u16(v) + tail), head.len() as int, 2) == v,
        codec::enc_u16(v).len() == 2,
{
    lemma_widths(v, 0, 0);
    let s = head + (codec::enc_u16(v) + tail);
    assert(s.subrange(head.len() as int, head.len() as int + 2) =~= codec::enc_u16(v));
}

proof fn lemma_u32_at(head: Seq<u8>, v: u32, tail: Seq<u8>)
    ensures
        num(head + (codec::enc_u32(v) + tail), head.len() as int, 4) == v,
        codec::enc_u32(v).len() == 4,
{
    lemma_widths(0, v, 0);
    let s = head + (codec::enc_u32(v) + tail);
    assert(s.subrange(head.len() as int, head.len() as int + 4) =~= codec::enc_u32(v));
}

proof fn lemma_u64_at(head: Seq<u8>, v: u64, tail: Seq<u8>)
    ensures
        num(head + (codec::enc_u64(v) + tail), head.len() as int, 8) == v,
        codec::enc_u64(v).len() == 8,
{
    lemma_widths(0, 0, v);
    let s = head + (codec::enc_u64(v) + tail);
    assert(s.subrange(head.len() as int, head.len() as int + 8) =~= codec::enc_u64(v));
}

proof fn lemma_u32s_at(v: Seq<u32>, k: int)
    ensures
        gpu_snapshot::enc_u32s(v).len() == 4 * v.len(),
        0 <= k < v.len() ==> gpu_snapshot::enc_u32s(v).subrange(4 * k, 4 * k + 4)
            == codec::enc_u32(v[k]),
    decreases v.len(),
{
    if v.len() > 0 {
        lemma_u32s_at(v.drop_last(), k);
        lemma_widths(0, v.last(), 0);
        let s = gpu_snapshot::enc_u32s(v);
        let short = gpu_snapshot::enc_u32s(v.drop_last());
        if 0 <= k < v.len() - 1 {
            assert(s.subrange(4 * k, 4 * k + 4) =~= short.subrange(4 * k, 4 * k + 4));
        } else if k == v.len() - 1 {
            assert(s.subrange(4 * k, 4 * k + 4) =~= codec::enc_u32(v[k]));
        }
    }
}

/// The number `k` of a row of numbers behind `head`.
proof fn lemma_field(head: Seq<u8>, v: Seq<u32>, tail: Seq<u8>, k: int)
    requires
        0 <= k < v.len(),
    ensures
        num(head + (gpu_snapshot::enc_u32s(v) + tail), head.len() + 4 * k, 4) == v[k],
        gpu_snapshot::enc_u32s(v).len() == 4 * v.len(),
{
    lemma_u32s_at(v, k);
    lemma_widths(0, v[k], 0);
    let s = head + (gpu_snapshot::enc_u32s(v) + tail);
    let at = head.len() + 4 * k;
    assert(s.subrange(at, at + 4) =~= gpu_snapshot::enc_u32s(v).subrange(4 * k, 4 * k + 4));
}

/// An attach record: its tag says whether the context still has the resource, then come the
/// context and the resource.
pub proof fn law_attach_bytes(ctx_id: u32, resource_id: u32, detached: bool)
    ensures
        ({
            let s = gpu_snapshot::enc_op(
                GpuJournalOpView::CtxAttachResource { ctx_id, resource_id, detached },
            );
            &&& s.len() == 9
            &&& s[0] == if detached {
                10u8
            } else {
                2u8
            }
            &&& num(s, 1, 4) == ctx_id
            &&& num(s, 5, 4) == resource_id
        }),
{
    let s = gpu_snapshot::enc_op(
        GpuJournalOpView::CtxAttachResource { ctx_id, resource_id, detached },
    );
    let head = seq![s[0]];
    let v = seq![ctx_id, resource_id];
    assert(s =~= head + (gpu_snapshot::enc_u32s(v) + Seq::empty()));
    lemma_field(head, v, Seq::empty(), 0);
    lemma_field(head, v, Seq::empty(), 1);
}

/// A context: tag 1, the context, its kind, and its name behind the name's length.
pub proof fn law_context_bytes(ctx_id: u32, context_init: u32, name: Option<Seq<char>>)
    requires
        name matches Some(n) ==> vstd::utf8::encode_utf8(n).len() <= u32::MAX,
    ensures
        ({
            let s = gpu_snapshot::enc_op(
                GpuJournalOpView::CtxCreate { ctx_id, context_init, name },
            );
            let text = vstd::utf8::encode_utf8(
                match name {
                    Some(n) => n,
                    None => Seq::empty(),
                },
            );
            &&& s[0] == 1
            &&& num(s, 1, 4) == ctx_id
            &&& num(s, 5, 4) == context_init
            &&& num(s, 9, 4) == text.len() as u32
            &&& s.skip(13) == text
        }),
{
    let s = gpu_snapshot::enc_op(GpuJournalOpView::CtxCreate { ctx_id, context_init, name });
    let text = vstd::utf8::encode_utf8(
        match name {
            Some(n) => n,
            None => Seq::empty(),
        },
    );
    let head = codec::enc_u8(1);
    let v = seq![ctx_id, context_init];
    let tail = gpu_snapshot::enc_name(name);
    assert(s =~= head + (gpu_snapshot::enc_u32s(v) + tail));
    lemma_field(head, v, tail, 0);
    lemma_field(head, v, tail, 1);
    let long = head + gpu_snapshot::enc_u32s(v);
    assert(s =~= long + (codec::enc_u32(text.len() as u32) + text));
    lemma_u32_at(long, text.len() as u32, text);
    assert(s.skip(13) =~= text);
}

/// A blob: tag 3, its context and number, its kind and flags, the renderer's number for it and its
/// size, and the guest memory behind it.
pub proof fn law_blob_bytes(
    ctx_id: u32,
    resource_id: u32,
    blob_mem: u32,
    blob_flags: u32,
    blob_id: u64,
    size: u64,
    backing: Seq<(u64, usize)>,
)
    ensures
        ({
            let s = gpu_snapshot::enc_op(
                GpuJournalOpView::CreateBlob {
                    ctx_id,
                    resource_id,
                    blob_mem,
                    blob_flags,
                    blob_id,
                    size,
                    backing,
                },
            );
            &&& s[0] == 3
            &&& num(s, 1, 4) == ctx_id
            &&& num(s, 5, 4) == resource_id
            &&& num(s, 9, 4) == blob_mem
            &&& num(s, 13, 4) == blob_flags
            &&& num(s, 17, 8) == blob_id
            &&& num(s, 25, 8) == size
            &&& s.skip(33) == gpu_snapshot::enc_backing(backing)
        }),
{
    let s = gpu_snapshot::enc_op(
        GpuJournalOpView::CreateBlob {
            ctx_id,
            resource_id,
            blob_mem,
            blob_flags,
            blob_id,
            size,
            backing,
        },
    );
    let head = codec::enc_u8(3);
    let v = seq![ctx_id, resource_id, blob_mem, blob_flags];
    let b = gpu_snapshot::enc_backing(backing);
    let tail = codec::enc_u64(blob_id) + (codec::enc_u64(size) + b);
    assert(s =~= head + (gpu_snapshot::enc_u32s(v) + tail));
    lemma_field(head, v, tail, 0);
    lemma_field(head, v, tail, 1);
    lemma_field(head, v, tail, 2);
    lemma_field(head, v, tail, 3);
    let h2 = head + gpu_snapshot::enc_u32s(v);
    assert(s =~= h2 + (codec::enc_u64(blob_id) + (codec::enc_u64(size) + b)));
    lemma_u64_at(h2, blob_id, codec::enc_u64(size) + b);
    let h3 = h2 + codec::enc_u64(blob_id);
    assert(s =~= h3 + (codec::enc_u64(size) + b));
    lemma_u64_at(h3, size, b);
    assert(s.skip(33) =~= b);
}

/// Guest memory: how many ranges there are, then each one's address and length.
pub proof fn law_backing_bytes(backing: Seq<(u64, usize)>, i: int)
    requires
        backing.len() <= u32::MAX,
        0 <= i < backing.len(),
    ensures
        ({
            let s = gpu_snapshot::enc_backing(backing);
            &&& s.len() == 4 + 16 * backing.len()
            &&& num(s, 0, 4) == backing.len()
            &&& num(s, 4 + 16 * i, 8) == backing[i].0
            &&& num(s, 12 + 16 * i, 8) == backing[i].1 as u64
        }),
{
    let f = |r: (u64, usize)| gpu_snapshot::enc_range(r);
    let list = codec::enc_list(backing, f);
    let s = gpu_snapshot::enc_backing(backing);
    lemma_ranges_at(backing, i);
    lemma_widths(0, backing.len() as u32, backing[i].0);
    lemma_widths(0, 0, backing[i].1 as u64);
    assert(s.subrange(0, 4) =~= codec::enc_u32(backing.len() as u32));
    let one = gpu_snapshot::enc_range(backing[i]);
    let at = 4 + 16 * i;
    assert(s.subrange(at, at + 8) =~= list.subrange(16 * i, 16 * i + 16).subrange(0, 8));
    assert(s.subrange(at + 8, at + 16) =~= list.subrange(16 * i, 16 * i + 16).subrange(8, 16));
    assert(one.subrange(0, 8) =~= codec::enc_u64(backing[i].0));
    assert(one.subrange(8, 16) =~= codec::enc_u64(backing[i].1 as u64));
}

proof fn lemma_ranges_at(v: Seq<(u64, usize)>, k: int)
    ensures
        codec::enc_list(v, |r: (u64, usize)| gpu_snapshot::enc_range(r)).len() == 16 * v.len(),
        0 <= k < v.len() ==> codec::enc_list(
            v,
            |r: (u64, usize)| gpu_snapshot::enc_range(r),
        ).subrange(16 * k, 16 * k + 16) == gpu_snapshot::enc_range(v[k]),
    decreases v.len(),
{
    let f = |r: (u64, usize)| gpu_snapshot::enc_range(r);
    if v.len() > 0 {
        lemma_ranges_at(v.drop_last(), k);
        lemma_widths(0, 0, v.last().0);
        lemma_widths(0, 0, v.last().1 as u64);
        let s = codec::enc_list(v, f);
        let short = codec::enc_list(v.drop_last(), f);
        assert(s == short + gpu_snapshot::enc_range(v.last()));
        if 0 <= k < v.len() - 1 {
            assert(s.subrange(16 * k, 16 * k + 16) =~= short.subrange(16 * k, 16 * k + 16));
        } else if k == v.len() - 1 {
            assert(s.subrange(16 * k, 16 * k + 16) =~= gpu_snapshot::enc_range(v[k]));
        }
    }
}

/// A mapping: tag 4, the resource and its offset.
pub proof fn law_mapping_bytes(resource_id: u32, offset: u64)
    ensures
        ({
            let s = gpu_snapshot::enc_op(GpuJournalOpView::MapBlob { resource_id, offset });
            &&& s.len() == 13
            &&& s[0] == 4
            &&& num(s, 1, 4) == resource_id
            &&& num(s, 5, 8) == offset
        }),
{
    let s = gpu_snapshot::enc_op(GpuJournalOpView::MapBlob { resource_id, offset });
    let head = codec::enc_u8(4);
    lemma_u32_at(head, resource_id, codec::enc_u64(offset));
    let h2 = head + codec::enc_u32(resource_id);
    assert(s =~= h2 + (codec::enc_u64(offset) + Seq::empty()));
    lemma_u64_at(h2, offset, Seq::empty());
}

/// A scanout: tag 5 for a blob, with its format, and 9 for any other resource; first the scanout,
/// then the resource, then the size.
pub proof fn law_scanout_bytes(
    scanout_id: u32,
    resource_id: u32,
    width: u32,
    height: u32,
    format: u32,
)
    ensures
        ({
            let s = gpu_snapshot::enc_op(
                GpuJournalOpView::SetScanout { scanout_id, resource_id, width, height },
            );
            let b = gpu_snapshot::enc_op(
                GpuJournalOpView::SetScanoutBlob { scanout_id, resource_id, width, height, format },
            );
            &&& s[0] == 9
            &&& s.len() == 17
            &&& b[0] == 5
            &&& b.len() == 21
            &&& num(s, 1, 4) == scanout_id && num(b, 1, 4) == scanout_id
            &&& num(s, 5, 4) == resource_id && num(b, 5, 4) == resource_id
            &&& num(s, 9, 4) == width && num(b, 9, 4) == width
            &&& num(s, 13, 4) == height && num(b, 13, 4) == height
            &&& num(b, 17, 4) == format
        }),
{
    let s = gpu_snapshot::enc_op(
        GpuJournalOpView::SetScanout { scanout_id, resource_id, width, height },
    );
    let b = gpu_snapshot::enc_op(
        GpuJournalOpView::SetScanoutBlob { scanout_id, resource_id, width, height, format },
    );
    let v = seq![scanout_id, resource_id, width, height];
    let w = seq![scanout_id, resource_id, width, height, format];
    let none = Seq::<u8>::empty();
    assert(s =~= codec::enc_u8(9) + (gpu_snapshot::enc_u32s(v) + none));
    assert(b =~= codec::enc_u8(5) + (gpu_snapshot::enc_u32s(w) + none));
    assert forall|k: int| 0 <= k < 4 implies num(s, 1 + 4 * k, 4) == #[trigger] v[k] by {
        lemma_field(codec::enc_u8(9), v, none, k);
    }
    assert forall|k: int| 0 <= k < 5 implies num(b, 1 + 4 * k, 4) == #[trigger] w[k] by {
        lemma_field(codec::enc_u8(5), w, none, k);
    }
    lemma_u32s_at(v, 0);
    lemma_u32s_at(w, 0);
    assert(v[0] == scanout_id && v[1] == resource_id && v[2] == width && v[3] == height);
    assert(w[0] == scanout_id && w[1] == resource_id && w[2] == width && w[3] == height && w[4]
        == format);
}

/// A resource of the renderer's: tag 6 and its fields in the order in which the guest sends them;
/// a software-2D one: tag 7, its number, format and size.
pub proof fn law_resource_bytes(
    resource_id: u32,
    target: u32,
    format: u32,
    bind: u32,
    width: u32,
    height: u32,
    depth: u32,
    array_size: u32,
    last_level: u32,
    nr_samples: u32,
    flags: u32,
)
    ensures
        ({
            let s = gpu_snapshot::enc_op(
                GpuJournalOpView::ResourceCreate3d {
                    resource_id,
                    target,
                    format,
                    bind,
                    width,
                    height,
                    depth,
                    array_size,
                    last_level,
                    nr_samples,
                    flags,
                },
            );
            let p = gpu_snapshot::enc_op(
                GpuJournalOpView::ResourceCreate2d { resource_id, format, width, height },
            );
            &&& s[0] == 6
            &&& s.len() == 45
            &&& num(s, 1, 4) == resource_id
            &&& num(s, 5, 4) == target
            &&& num(s, 9, 4) == format
            &&& num(s, 13, 4) == bind
            &&& num(s, 17, 4) == width
            &&& num(s, 21, 4) == height
            &&& num(s, 25, 4) == depth
            &&& num(s, 29, 4) == array_size
            &&& num(s, 33, 4) == last_level
            &&& num(s, 37, 4) == nr_samples
            &&& num(s, 41, 4) == flags
            &&& p[0] == 7
            &&& p.len() == 17
            &&& num(p, 1, 4) == resource_id
            &&& num(p, 5, 4) == format
            &&& num(p, 9, 4) == width
            &&& num(p, 13, 4) == height
        }),
{
    let s = gpu_snapshot::enc_op(
        GpuJournalOpView::ResourceCreate3d {
            resource_id,
            target,
            format,
            bind,
            width,
            height,
            depth,
            array_size,
            last_level,
            nr_samples,
            flags,
        },
    );
    let p = gpu_snapshot::enc_op(
        GpuJournalOpView::ResourceCreate2d { resource_id, format, width, height },
    );
    let v = seq![
        resource_id,
        target,
        format,
        bind,
        width,
        height,
        depth,
        array_size,
        last_level,
        nr_samples,
        flags,
    ];
    let w = seq![resource_id, format, width, height];
    let none = Seq::<u8>::empty();
    assert(s =~= codec::enc_u8(6) + (gpu_snapshot::enc_u32s(v) + none));
    assert(p =~= codec::enc_u8(7) + (gpu_snapshot::enc_u32s(w) + none));
    assert forall|k: int| 0 <= k < 11 implies num(s, 1 + 4 * k, 4) == #[trigger] v[k] by {
        lemma_field(codec::enc_u8(6), v, none, k);
    }
    assert forall|k: int| 0 <= k < 4 implies num(p, 1 + 4 * k, 4) == #[trigger] w[k] by {
        lemma_field(codec::enc_u8(7), w, none, k);
    }
    lemma_u32s_at(v, 0);
    lemma_u32s_at(w, 0);
    assert(v[0] == resource_id && v[1] == target && v[2] == format && v[3] == bind && v[4] == width
        && v[5] == height && v[6] == depth && v[7] == array_size && v[8] == last_level && v[9]
        == nr_samples && v[10] == flags);
    assert(w[0] == resource_id && w[1] == format && w[2] == width && w[3] == height);
}

/// Guest memory that was put behind a resource: tag 8, the resource, the memory. In front of each
/// op stands how far its context's wire journal had come.
pub proof fn law_entry_bytes(resource_id: u32, backing: Seq<(u64, usize)>, vkr_seq: u64, op: GpuJournalOpView)
    ensures
        ({
            let s = gpu_snapshot::enc_op(GpuJournalOpView::AttachBacking { resource_id, backing });
            let e = gpu_snapshot::enc_entry((vkr_seq, op));
            &&& s[0] == 8
            &&& num(s, 1, 4) == resource_id
            &&& s.skip(5) == gpu_snapshot::enc_backing(backing)
            &&& num(e, 0, 8) == vkr_seq
            &&& e.skip(8) == gpu_snapshot::enc_op(op)
        }),
{
    let s = gpu_snapshot::enc_op(GpuJournalOpView::AttachBacking { resource_id, backing });
    let b = gpu_snapshot::enc_backing(backing);
    lemma_u32_at(codec::enc_u8(8), resource_id, b);
    assert(s.skip(5) =~= b);
    let e = gpu_snapshot::enc_entry((vkr_seq, op));
    lemma_u64_at(Seq::empty(), vkr_seq, gpu_snapshot::enc_op(op));
    assert(e =~= Seq::empty() + (codec::enc_u64(vkr_seq) + gpu_snapshot::enc_op(op)));
    assert(e.skip(8) =~= gpu_snapshot::enc_op(op));
}

/// Contents are bytes behind their length in eight, behind the number of the resource or of the
/// context that they belong to; device memory has its own number between.
pub proof fn law_contents_bytes(id: u32, mem_id: u64, bytes: Seq<u8>)
    requires
        bytes.len() <= u64::MAX,
    ensures
        ({
            let t = gpu_snapshot::enc_tagged_entry((id, bytes));
            let m = gpu_snapshot::enc_memory_entry((id, mem_id, bytes));
            &&& num(t, 0, 4) == id
            &&& num(t, 4, 8) == bytes.len()
            &&& t.skip(12) == bytes
            &&& num(m, 0, 4) == id
            &&& num(m, 4, 8) == mem_id
            &&& num(m, 12, 8) == bytes.len()
            &&& m.skip(20) == bytes
        }),
{
    let t = gpu_snapshot::enc_tagged_entry((id, bytes));
    let m = gpu_snapshot::enc_memory_entry((id, mem_id, bytes));
    let n = bytes.len() as u64;
    let none = Seq::<u8>::empty();
    let blob = codec::enc_blob(bytes);
    let a = codec::enc_u32(id);
    let b = codec::enc_u64(mem_id);
    assert(t =~= none + (a + blob));
    assert(m =~= none + (a + (b + blob)));
    lemma_u32_at(none, id, blob);
    lemma_u32_at(none, id, b + blob);
    assert(t =~= a + (codec::enc_u64(n) + bytes));
    lemma_u64_at(a, n, bytes);
    lemma_u64_at(a, mem_id, blob);
    assert(m =~= (a + b) + (codec::enc_u64(n) + bytes));
    lemma_u64_at(a + b, n, bytes);
    assert(t.skip(12) =~= bytes);
    assert(m.skip(20) =~= bytes);
}

/// The cursor: tag 2, its scanout, size, hot spot, format and place, and its pixels behind their
/// length; tag 0 alone for none. Tag 1 is a cursor without a scanout, which is then on the first.
pub proof fn law_cursor_bytes(c: CursorSnapshotView, rest: Seq<u8>)
    requires
        c.pixels.len() <= usize::MAX,
    ensures
        ({
            let s = gpu_snapshot::enc_cursor(Some(c));
            &&& s[0] == 2
            &&& num(s, 1, 4) == c.scanout_id
            &&& num(s, 5, 4) == c.width
            &&& num(s, 9, 4) == c.height
            &&& num(s, 13, 4) == c.hot_x
            &&& num(s, 17, 4) == c.hot_y
            &&& num(s, 21, 4) == c.format
            &&& num(s, 25, 4) == c.x
            &&& num(s, 29, 4) == c.y
            &&& num(s, 33, 8) == c.pixels.len()
            &&& s.skip(41) == c.pixels
            &&& gpu_snapshot::enc_cursor(None) == seq![0u8]
            &&& gpu_snapshot::dec_cursor(seq![1u8] + (s.skip(5) + rest)) == Some(
                (Some(CursorSnapshotView { scanout_id: 0, ..c }), rest),
            )
        }),
{
    let s = gpu_snapshot::enc_cursor(Some(c));
    let v = seq![c.scanout_id, c.width, c.height, c.hot_x, c.hot_y, c.format, c.x, c.y];
    let blob = codec::enc_blob(c.pixels);
    let head = codec::enc_u8(2);
    assert(s =~= head + (gpu_snapshot::enc_u32s(v) + blob));
    assert forall|k: int| 0 <= k < 8 implies num(s, 1 + 4 * k, 4) == #[trigger] v[k] by {
        lemma_field(head, v, blob, k);
    }
    lemma_u32s_at(v, 0);
    assert(v[0] == c.scanout_id && v[1] == c.width && v[2] == c.height && v[3] == c.hot_x && v[4]
        == c.hot_y && v[5] == c.format && v[6] == c.x && v[7] == c.y);
    let h2 = head + gpu_snapshot::enc_u32s(v);
    let n = c.pixels.len() as u64;
    assert(s =~= h2 + (codec::enc_u64(n) + c.pixels));
    lemma_u64_at(h2, n, c.pixels);
    assert(s.skip(41) =~= c.pixels);
    let short = v.skip(1);
    lemma_u32s_split(v);
    let old = gpu_snapshot::enc_u32s(short) + blob;
    assert(s.skip(5) =~= old);
    crate::snapshot_laws::lemma_u32s_round_trip(short, blob + rest);
    codec::lemma_blob_round_trip(c.pixels, rest);
    codec::lemma_concat_assoc(gpu_snapshot::enc_u32s(short), blob, rest);
    codec::lemma_u8_round_trip(1, s.skip(5) + rest);
    assert(seq![0u32] + short =~= v.update(0, 0));
}

proof fn lemma_u32s_split(v: Seq<u32>)
    requires
        v.len() > 0,
    ensures
        gpu_snapshot::enc_u32s(v) == codec::enc_u32(v[0]) + gpu_snapshot::enc_u32s(v.skip(1)),
    decreases v.len(),
{
    if v.len() == 1 {
        reveal_with_fuel(codec::enc_list, 2);
        assert(v.skip(1) =~= Seq::empty());
        assert(v.drop_last() =~= Seq::empty());
        assert(gpu_snapshot::enc_u32s(v) =~= codec::enc_u32(v[0]));
    } else {
        lemma_u32s_split(v.drop_last());
        assert(v.drop_last().skip(1) =~= v.skip(1).drop_last());
        assert(v.skip(1).last() == v.last());
        assert(gpu_snapshot::enc_u32s(v) =~= codec::enc_u32(v[0]) + gpu_snapshot::enc_u32s(
            v.skip(1),
        ));
    }
}

/// A frame: its scanout and size, and its pixels behind their length.
pub proof fn law_frame_bytes(f: ScanoutFrameView)
    requires
        f.pixels.len() <= u64::MAX,
    ensures
        ({
            let s = gpu_snapshot::enc_frame(f);
            &&& num(s, 0, 4) == f.scanout_id
            &&& num(s, 4, 4) == f.width
            &&& num(s, 8, 4) == f.height
            &&& num(s, 12, 8) == f.pixels.len()
            &&& s.skip(20) == f.pixels
        }),
{
    let s = gpu_snapshot::enc_frame(f);
    let v = seq![f.scanout_id, f.width, f.height];
    let blob = codec::enc_blob(f.pixels);
    let none = Seq::<u8>::empty();
    assert(s =~= none + (gpu_snapshot::enc_u32s(v) + blob));
    lemma_field(none, v, blob, 0);
    lemma_field(none, v, blob, 1);
    lemma_field(none, v, blob, 2);
    let n = f.pixels.len() as u64;
    assert(s =~= gpu_snapshot::enc_u32s(v) + (codec::enc_u64(n) + f.pixels));
    lemma_u64_at(gpu_snapshot::enc_u32s(v), n, f.pixels);
    assert(s.skip(20) =~= f.pixels);
}

/// A display: its mode, its place, whether it is plugged in, and its EDID, given as it is behind
/// its length or by what it is generated from.
pub proof fn law_display_bytes(d: DisplayInfoView)
    ensures
        ({
            let s = display::enc_display(d);
            &&& num(s, 0, 4) == d.width
            &&& num(s, 4, 4) == d.height
            &&& num(s, 8, 4) == d.position.0
            &&& num(s, 12, 4) == d.position.1
            &&& s[16] == if d.connected {
                1u8
            } else {
                0u8
            }
            &&& match d.edid {
                DisplayInfoEdidView::Generated(p) => s[17] == 0 && s.skip(18)
                    == display::enc_edid_params(p),
                DisplayInfoEdidView::Provided(b) => s[17] == 1 && num(s, 18, 8) == b.len() as u64
                    && s.skip(26) == b,
            }
        }),
{
    let s = display::enc_display(d);
    let none = Seq::<u8>::empty();
    let (a, b, c, e) = (
        codec::enc_u32(d.width),
        codec::enc_u32(d.height),
        codec::enc_u32(d.position.0),
        codec::enc_u32(d.position.1),
    );
    let tail = codec::enc_flag(d.connected) + display::enc_edid(d.edid);
    assert(s =~= none + (a + (b + (c + (e + tail)))));
    lemma_u32_at(none, d.width, b + (c + (e + tail)));
    lemma_u32_at(a, d.height, c + (e + tail));
    assert(s =~= (a + b) + (c + (e + tail)));
    lemma_u32_at(a + b, d.position.0, e + tail);
    assert(s =~= (a + b + c) + (e + tail));
    lemma_u32_at(a + b + c, d.position.1, tail);
    assert(s.skip(16) =~= tail);
    assert(s[16] == s.skip(16)[0]);
    assert(s[17] == s.skip(16)[1]);
    match d.edid {
        DisplayInfoEdidView::Generated(p) => {
            assert(s.skip(18) =~= display::enc_edid_params(p));
        },
        DisplayInfoEdidView::Provided(bytes) => {
            let head = a + b + c + e + codec::enc_flag(d.connected) + codec::enc_u8(1);
            let n = bytes.len() as u64;
            assert(s =~= head + (codec::enc_u64(n) + bytes));
            lemma_u64_at(head, n, bytes);
            assert(s.skip(26) =~= bytes);
        },
    }
}

/// What an EDID is generated from: the refresh rate, the resolution or the size in millimetres,
/// and behind a byte of presence each the identity, the range, the eight timings and the other
/// mode.
pub proof fn law_edid_params_bytes(p: EdidParamsView)
    requires
        p.identity is None,
        p.range is None,
    ensures
        ({
            let s = display::enc_edid_params(p);
            &&& num(s, 0, 4) == p.refresh_rate
            &&& match p.physical_size {
                PhysicalSize::Dpi(dpi) => s[4] == 0 && num(s, 5, 4) == dpi,
                PhysicalSize::DimensionsMillimeters(w, h) => s[4] == 1 && num(s, 5, 2) == w && num(
                    s,
                    7,
                    2,
                ) == h,
            }
            &&& s[9] == 0
            &&& s[10] == 0
            &&& s[11] == if p.standard_timings is Some {
                1u8
            } else {
                0u8
            }
            &&& p.standard_timings is None && p.alt_mode is None ==> s[12] == 0
            &&& p.standard_timings is None && p.alt_mode is Some ==> s[12] == 1 && s.skip(
                13,
            ) == display::enc_mode(p.alt_mode.unwrap())
        }),
{
    let s = display::enc_edid_params(p);
    let none = Seq::<u8>::empty();
    let a = codec::enc_u32(p.refresh_rate);
    let z = display::enc_physical_size(p.physical_size);
    let f3 = |t: Seq<Option<StandardTiming>>| display::enc_timings(t);
    let f4 = |m: DetailedMode| display::enc_mode(m);
    let e3 = display::enc_opt(p.standard_timings, f3);
    let e4 = display::enc_opt(p.alt_mode, f4);
    let tail = codec::enc_flag(false) + (codec::enc_flag(false) + (e3 + e4));
    assert(s =~= a + (z + tail));
    assert(s =~= none + (a + (z + tail)));
    lemma_u32_at(none, p.refresh_rate, z + tail);
    match p.physical_size {
        PhysicalSize::Dpi(dpi) => {
            let head = a + codec::enc_u8(0);
            assert(s =~= head + (codec::enc_u32(dpi) + tail));
            lemma_u32_at(head, dpi, tail);
        },
        PhysicalSize::DimensionsMillimeters(w, h) => {
            let head = a + codec::enc_u8(1);
            assert(s =~= head + (codec::enc_u16(w) + (codec::enc_u16(h) + tail)));
            lemma_u16_at(head, w, codec::enc_u16(h) + tail);
            let h2 = head + codec::enc_u16(w);
            assert(s =~= h2 + (codec::enc_u16(h) + tail));
            lemma_u16_at(h2, h, tail);
        },
    }
    assert(s.skip(9) =~= tail);
    assert(s[9] == s.skip(9)[0]);
    assert(s[10] == s.skip(9)[1]);
    assert(s[11] == s.skip(9)[2]);
    if p.standard_timings is None {
        assert(s[12] == s.skip(9)[3]);
        if let Some(m) = p.alt_mode {
            assert(s.skip(13) =~= f4(m));
        }
    }
}

/// The parts of an EDID: the maker's three letters, the product and its numbers and names; the
/// range of rates; a timing; a mode.
pub proof fn law_edid_part_bytes(
    id: EdidIdentityView,
    r: RefreshRange,
    t: StandardTiming,
    m: DetailedMode,
)
    requires
        id.wf(),
    ensures
        ({
            let i = display::enc_identity(id);
            let g = display::enc_range(r);
            let u = display::enc_timing(t);
            let d = display::enc_mode(m);
            &&& i.take(3) == id.manufacturer
            &&& num(i, 3, 2) == id.product_id
            &&& num(i, 5, 4) == id.serial
            &&& i.subrange(9, 22) == id.product_name
            &&& match id.serial_string {
                Some(text) => i[22] == 1 && i.skip(23) == text,
                None => i[22] == 0 && i.len() == 23,
            }
            &&& g[0] == r.min_vertical_hz && g[1] == r.max_vertical_hz
            &&& num(g, 2, 2) == r.min_horizontal_khz
            &&& num(g, 4, 2) == r.max_horizontal_khz
            &&& num(g, 6, 4) == r.max_pixel_clock_mhz
            &&& num(u, 0, 2) == t.width && num(u, 2, 2) == t.height && num(u, 4, 2) == t.refresh_hz
            &&& num(d, 0, 4) == m.width && num(d, 4, 4) == m.height && num(d, 8, 4) == m.refresh_hz
            &&& display::enc_slot(None) == seq![0u8]
            &&& display::enc_slot(Some(t)) == seq![1u8] + u
        }),
{
    lemma_identity_bytes(id);
    lemma_small_bytes(r, t, m);
    assert(display::enc_slot(Some(t)) =~= seq![1u8] + display::enc_timing(t));
}

proof fn lemma_identity_bytes(id: EdidIdentityView)
    requires
        id.wf(),
    ensures
        ({
            let i = display::enc_identity(id);
            &&& i.take(3) == id.manufacturer
            &&& num(i, 3, 2) == id.product_id
            &&& num(i, 5, 4) == id.serial
            &&& i.subrange(9, 22) == id.product_name
            &&& match id.serial_string {
                Some(text) => i[22] == 1 && i.skip(23) == text,
                None => i[22] == 0 && i.len() == 23,
            }
        }),
{
    let i = display::enc_identity(id);
    let tail = display::enc_opt(id.serial_string, |s: Seq<u8>| s);
    let p = codec::enc_u16(id.product_id);
    let q = codec::enc_u32(id.serial);
    lemma_u16_at(id.manufacturer, id.product_id, q + (id.product_name + tail));
    assert(i =~= (id.manufacturer + p) + (q + (id.product_name + tail)));
    lemma_u32_at(id.manufacturer + p, id.serial, id.product_name + tail);
    assert(i.take(3) =~= id.manufacturer);
    assert(i.subrange(9, 22) =~= id.product_name);
    assert(i.skip(22) =~= tail);
    assert(i[22] == i.skip(22)[0]);
    if let Some(text) = id.serial_string {
        assert(i.skip(23) =~= text);
    }
}

proof fn lemma_small_bytes(r: RefreshRange, t: StandardTiming, m: DetailedMode)
    ensures
        ({
            let g = display::enc_range(r);
            let u = display::enc_timing(t);
            let d = display::enc_mode(m);
            &&& g[0] == r.min_vertical_hz && g[1] == r.max_vertical_hz
            &&& num(g, 2, 2) == r.min_horizontal_khz
            &&& num(g, 4, 2) == r.max_horizontal_khz
            &&& num(g, 6, 4) == r.max_pixel_clock_mhz
            &&& num(u, 0, 2) == t.width && num(u, 2, 2) == t.height && num(u, 4, 2) == t.refresh_hz
            &&& num(d, 0, 4) == m.width && num(d, 4, 4) == m.height && num(d, 8, 4) == m.refresh_hz
        }),
{
    let none = Seq::<u8>::empty();
    let g = display::enc_range(r);
    let head = seq![r.min_vertical_hz, r.max_vertical_hz];
    let a = codec::enc_u16(r.min_horizontal_khz);
    let b = codec::enc_u16(r.max_horizontal_khz);
    let c = codec::enc_u32(r.max_pixel_clock_mhz);
    assert(g =~= head + (a + (b + c)));
    lemma_u16_at(head, r.min_horizontal_khz, b + c);
    assert(g =~= (head + a) + (b + c));
    lemma_u16_at(head + a, r.max_horizontal_khz, c);
    assert(g =~= (head + a + b) + (c + none));
    lemma_u32_at(head + a + b, r.max_pixel_clock_mhz, none);
    let u = display::enc_timing(t);
    let x = codec::enc_u16(t.width);
    let y = codec::enc_u16(t.height);
    let z = codec::enc_u16(t.refresh_hz);
    assert(u =~= none + (x + (y + z)));
    lemma_u16_at(none, t.width, y + z);
    lemma_u16_at(x, t.height, z);
    assert(u =~= (x + y) + (z + none));
    lemma_u16_at(x + y, t.refresh_hz, none);
    let d = display::enc_mode(m);
    let k = codec::enc_u32(m.width);
    let l = codec::enc_u32(m.height);
    let n = codec::enc_u32(m.refresh_hz);
    assert(d =~= none + (k + (l + n)));
    lemma_u32_at(none, m.width, l + n);
    lemma_u32_at(k, m.height, n);
    assert(d =~= (k + l) + (n + none));
    lemma_u32_at(k + l, m.refresh_hz, none);
}

/// A payload begins with four letters, its version, and how many ops there are. What does not begin
/// so is none.
pub proof fn law_payload_begins(p: GpuSnapshotPayloadView, s: Seq<u8>)
    requires
        p.ops.len() <= u32::MAX,
    ensures
        gpu_snapshot::enc_payload(p).take(4) == seq![0x4cu8, 0x47, 0x50, 0x55],
        gpu_snapshot::enc_payload(p).subrange(4, 8) == seq![8u8, 0, 0, 0],
        num(gpu_snapshot::enc_payload(p), 8, 4) == p.ops.len(),
        gpu_snapshot::dec_payload(s) is Some ==> s.len() >= 8 && num(s, 0, 4) == 0x5550_474c && num(
            s,
            4,
            4,
        ) == 8,
{
    let e = gpu_snapshot::enc_payload(p);
    let a = codec::enc_u32(0x5550_474c);
    let b = codec::enc_u32(8);
    let ops = gpu_snapshot::unnumbered(p.ops);
    let n = codec::enc_u32(ops.len() as u32);
    let list = codec::enc_list(
        ops,
        |e: (u64, GpuJournalOpView)| gpu_snapshot::enc_entry(e),
    );
    let tail = gpu_snapshot::enc_sections(p);
    codec::law_u32_bytes(0x5550_474c);
    codec::law_u32_bytes(8);
    lemma_widths(0, 0x5550_474c, 0);
    lemma_widths(0, 8, 0);
    assert(e =~= (a + b) + (n + (list + tail)));
    lemma_u32_at(a + b, ops.len() as u32, list + tail);
    assert(e.take(4) =~= a);
    assert(a =~= seq![0x4cu8, 0x47, 0x50, 0x55]);
    assert(e.subrange(4, 8) =~= b);
    assert(b =~= seq![8u8, 0, 0, 0]);
    if gpu_snapshot::dec_payload(s) is Some {
        codec::lemma_le_bounds();
        codec::lemma_le_value_bound(s.take(4));
        codec::lemma_le_value_bound(s.skip(4).take(4));
        assert(s.subrange(0, 4) =~= s.take(4));
        assert(s.subrange(4, 8) =~= s.skip(4).take(4));
    }
}

/// The order of the sections, seen where those in front are empty: ops, wire journals, contents of
/// blobs, device memory, sync states, the cursor, classic contents, displays and frames.
pub proof fn law_sections_in_order(p: GpuSnapshotPayloadView)
    requires
        p.ops.len() == 0,
        p.vkr_journals.len() <= u32::MAX,
        p.blob_contents.len() <= u32::MAX,
        p.memory_contents.len() <= u32::MAX,
        p.sync_states.len() <= u32::MAX,
        p.classic_contents.len() <= u32::MAX,
        p.displays.len() <= u32::MAX,
        p.scanout_frames.len() <= u32::MAX,
    ensures
        ({
            let s = gpu_snapshot::enc_payload(p);
            &&& num(s, 12, 4) == p.vkr_journals.len()
            &&& p.vkr_journals.len() == 0 ==> {
                &&& num(s, 16, 4) == p.blob_contents.len()
                &&& p.blob_contents.len() == 0 ==> {
                    &&& num(s, 20, 4) == p.memory_contents.len()
                    &&& p.memory_contents.len() == 0 ==> {
                        &&& num(s, 24, 4) == p.sync_states.len()
                        &&& p.sync_states.len() == 0 ==> {
                            &&& s[28] == if p.cursor is Some {
                                2u8
                            } else {
                                0u8
                            }
                            &&& p.cursor is None ==> {
                                &&& num(s, 29, 4) == p.classic_contents.len()
                                &&& p.classic_contents.len() == 0 ==> {
                                    &&& num(s, 33, 4) == p.displays.len()
                                    &&& p.displays.len() == 0 ==> num(s, 37, 4)
                                        == p.scanout_frames.len()
                                }
                            }
                        }
                    }
                }
            }
        }),
{
    let s = gpu_snapshot::enc_payload(p);
    let h = codec::enc_u32(gpu_snapshot::PAYLOAD_MAGIC) + codec::enc_u32(
        gpu_snapshot::PAYLOAD_VERSION,
    ) + codec::enc_u32(0);
    lemma_widths(0, gpu_snapshot::PAYLOAD_MAGIC, 0);
    lemma_widths(0, gpu_snapshot::PAYLOAD_VERSION, 0);
    lemma_widths(0, 0, 0);
    let z = codec::enc_u32(0);
    assert(gpu_snapshot::unnumbered(p.ops) =~= Seq::empty());
    let s1 = gpu_snapshot::enc_sections(p);
    assert(s =~= h + s1);
    let l1 = codec::enc_list(
        p.vkr_journals,
        |e: (u32, Seq<u8>)| gpu_snapshot::enc_tagged_entry(e),
    );
    let r1 = gpu_snapshot::enc_tagged(p.blob_contents) + (gpu_snapshot::enc_memory(
        p.memory_contents,
    ) + (gpu_snapshot::enc_tagged(p.sync_states) + (gpu_snapshot::enc_cursor(p.cursor) + (
    gpu_snapshot::enc_tagged(p.classic_contents) + (gpu_snapshot::enc_displays(p.displays)
        + gpu_snapshot::enc_frames(p.scanout_frames))))));
    assert(s =~= h + (codec::enc_u32(p.vkr_journals.len() as u32) + (l1 + r1)));
    lemma_u32_at(h, p.vkr_journals.len() as u32, l1 + r1);
    if p.vkr_journals.len() == 0 {
        let h2 = h + z;
        assert(s =~= h2 + r1);
        lemma_sections_from_blobs(p, h2);
    }
}

proof fn lemma_sections_from_blobs(p: GpuSnapshotPayloadView, h: Seq<u8>)
    requires
        h.len() == 16,
        p.blob_contents.len() <= u32::MAX,
        p.memory_contents.len() <= u32::MAX,
        p.sync_states.len() <= u32::MAX,
        p.classic_contents.len() <= u32::MAX,
        p.displays.len() <= u32::MAX,
        p.scanout_frames.len() <= u32::MAX,
    ensures
        ({
            let s = h + (gpu_snapshot::enc_tagged(p.blob_contents) + (gpu_snapshot::enc_memory(
                p.memory_contents,
            ) + (gpu_snapshot::enc_tagged(p.sync_states) + (gpu_snapshot::enc_cursor(p.cursor) + (
            gpu_snapshot::enc_tagged(p.classic_contents) + (gpu_snapshot::enc_displays(p.displays)
                + gpu_snapshot::enc_frames(p.scanout_frames)))))));
            &&& num(s, 16, 4) == p.blob_contents.len()
            &&& p.blob_contents.len() == 0 ==> {
                &&& num(s, 20, 4) == p.memory_contents.len()
                &&& p.memory_contents.len() == 0 ==> {
                    &&& num(s, 24, 4) == p.sync_states.len()
                    &&& p.sync_states.len() == 0 ==> {
                        &&& s[28] == if p.cursor is Some {
                            2u8
                        } else {
                            0u8
                        }
                        &&& p.cursor is None ==> {
                            &&& num(s, 29, 4) == p.classic_contents.len()
                            &&& p.classic_contents.len() == 0 ==> {
                                &&& num(s, 33, 4) == p.displays.len()
                                &&& p.displays.len() == 0 ==> num(s, 37, 4)
                                    == p.scanout_frames.len()
                            }
                        }
                    }
                }
            }
        }),
{
    let tagged = |e: (u32, Seq<u8>)| gpu_snapshot::enc_tagged_entry(e);
    let z = codec::enc_u32(0);
    lemma_widths(0, 0, 0);
    let r5 = gpu_snapshot::enc_frames(p.scanout_frames);
    let r4 = gpu_snapshot::enc_displays(p.displays) + r5;
    let r3 = gpu_snapshot::enc_tagged(p.classic_contents) + r4;
    let r2 = gpu_snapshot::enc_cursor(p.cursor) + r3;
    let r1 = gpu_snapshot::enc_tagged(p.sync_states) + r2;
    let r0 = gpu_snapshot::enc_memory(p.memory_contents) + r1;
    let s = h + (gpu_snapshot::enc_tagged(p.blob_contents) + r0);
    let l = codec::enc_list(p.blob_contents, tagged);
    assert(s =~= h + (codec::enc_u32(p.blob_contents.len() as u32) + (l + r0)));
    lemma_u32_at(h, p.blob_contents.len() as u32, l + r0);
    if p.blob_contents.len() == 0 {
        let h1 = h + z;
        let m = codec::enc_list(
            p.memory_contents,
            |e: (u32, u64, Seq<u8>)| gpu_snapshot::enc_memory_entry(e),
        );
        assert(s =~= h1 + r0);
        assert(s =~= h1 + (codec::enc_u32(p.memory_contents.len() as u32) + (m + r1)));
        lemma_u32_at(h1, p.memory_contents.len() as u32, m + r1);
        if p.memory_contents.len() == 0 {
            let h2 = h1 + z;
            let y = codec::enc_list(p.sync_states, tagged);
            assert(s =~= h2 + r1);
            assert(s =~= h2 + (codec::enc_u32(p.sync_states.len() as u32) + (y + r2)));
            lemma_u32_at(h2, p.sync_states.len() as u32, y + r2);
            if p.sync_states.len() == 0 {
                let h3 = h2 + z;
                assert(s =~= h3 + r2);
                assert(s[28] == r2[0]);
                if p.cursor is None {
                    let h4 = h3 + seq![0u8];
                    assert(s =~= h4 + r3);
                    let c = codec::enc_list(p.classic_contents, tagged);
                    assert(s =~= h4 + (codec::enc_u32(p.classic_contents.len() as u32) + (c + r4)));
                    lemma_u32_at(h4, p.classic_contents.len() as u32, c + r4);
                    if p.classic_contents.len() == 0 {
                        let h5 = h4 + z;
                        assert(s =~= h5 + r4);
                        let d = codec::enc_list(
                            p.displays,
                            |d: DisplayInfoView| display::enc_display(d),
                        );
                        assert(s =~= h5 + (codec::enc_u32(p.displays.len() as u32) + (d + r5)));
                        lemma_u32_at(h5, p.displays.len() as u32, d + r5);
                        if p.displays.len() == 0 {
                            let h6 = h5 + z;
                            assert(s =~= h6 + r5);
                            let f = codec::enc_list(
                                p.scanout_frames,
                                |f: ScanoutFrameView| gpu_snapshot::enc_frame(f),
                            );
                            assert(s =~= h6 + (codec::enc_u32(p.scanout_frames.len() as u32) + f));
                            lemma_u32_at(h6, p.scanout_frames.len() as u32, f);
                        }
                    }
                }
            }
        }
    }
}

} // verus!
