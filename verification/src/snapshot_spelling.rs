//! A payload has one spelling: what is accepted is, written again, what was read.
use crate::codec;
use crate::codec::Decoded;
use crate::display;
use crate::display::{DetailedMode, DisplayInfoView, EdidIdentityView, RefreshRange, StandardTiming};
use crate::gpu_snapshot;
use crate::gpu_snapshot::{GpuJournalOpView, GpuSnapshotPayloadView, ScanoutFrameView};
use crate::snapshot_laws;
use vstd::prelude::*;

verus! {

proof fn lemma_opt_spelled<T>(
    s: Seq<u8>,
    f: spec_fn(T) -> Seq<u8>,
    g: spec_fn(Seq<u8>) -> Decoded<T>,
)
    requires
        forall|s: Seq<u8>| codec::spells(#[trigger] g(s), s, f),
    ensures
        display::dec_opt(s, g) matches Some((v, rest)) ==> s == display::enc_opt(v, f) + rest,
{
    codec::lemma_flag_spelled(s);
    match codec::dec_flag(s) {
        Some((present, t)) => {
            if present {
                assert(codec::spells(g(t), t, f));
                match g(t) {
                    Some((v, rest)) => {
                        codec::lemma_concat_assoc(codec::enc_flag(true), f(v), rest);
                    },
                    None => {},
                }
            }
        },
        None => {},
    }
}

proof fn lemma_physical_size_spelled(s: Seq<u8>)
    ensures
        display::dec_physical_size(s) matches Some((v, rest)) ==> s == display::enc_physical_size(v)
            + rest,
{
    broadcast use {codec::group_spelled, codec::lemma_concat_assoc};

}

proof fn lemma_identity_spelled(s: Seq<u8>)
    ensures
        display::dec_identity(s) matches Some((v, rest)) ==> s == display::enc_identity(v) + rest,
{
    if display::dec_identity(s) is Some {
        let f = |s: Seq<u8>| s;
        let g = |s: Seq<u8>| codec::dec_bytes(s, 13);
        assert forall|s: Seq<u8>| codec::spells(#[trigger] g(s), s, f) by {
            codec::lemma_bytes_spelled(s, 13);
        }
        codec::lemma_bytes_spelled(s, 3);
        let (a, s1) = codec::dec_bytes(s, 3).unwrap();
        codec::lemma_u16_spelled(s1);
        let (b, s2) = codec::dec_u16(s1).unwrap();
        codec::lemma_u32_spelled(s2);
        let (c, s3) = codec::dec_u32(s2).unwrap();
        codec::lemma_bytes_spelled(s3, 13);
        let (d, s4) = codec::dec_bytes(s3, 13).unwrap();
        lemma_opt_spelled(s4, f, g);
        let (e, rest) = display::dec_opt(s4, g).unwrap();
        broadcast use codec::lemma_concat_assoc;

        let v = EdidIdentityView {
            manufacturer: a,
            product_id: b,
            serial: c,
            product_name: d,
            serial_string: e,
        };
        assert(s == display::enc_identity(v) + rest);
    }
}

proof fn lemma_range_spelled(s: Seq<u8>)
    ensures
        display::dec_range(s) matches Some((v, rest)) ==> s == display::enc_range(v) + rest,
{
    broadcast use {codec::group_spelled, codec::lemma_concat_assoc};

}

proof fn lemma_timing_spelled(s: Seq<u8>)
    ensures
        display::dec_timing(s) matches Some((v, rest)) ==> s == display::enc_timing(v) + rest,
{
    broadcast use {codec::group_spelled, codec::lemma_concat_assoc};

}

proof fn lemma_timings_spelled(s: Seq<u8>)
    ensures
        display::dec_timings(s) matches Some((v, rest)) ==> s == display::enc_timings(v) + rest,
{
    let f = |t: Option<StandardTiming>| display::enc_slot(t);
    let g = |s: Seq<u8>| display::dec_slot(s);
    let tf = |t: StandardTiming| display::enc_timing(t);
    let tg = |s: Seq<u8>| display::dec_timing(s);
    assert forall|s: Seq<u8>| codec::spells(#[trigger] tg(s), s, tf) by {
        lemma_timing_spelled(s);
    }
    assert forall|s: Seq<u8>| codec::spells(#[trigger] g(s), s, f) by {
        lemma_opt_spelled(s, tf, tg);
    }
    codec::lemma_list_spelled(s, 8, f, g);
}

proof fn lemma_mode_spelled(s: Seq<u8>)
    ensures
        display::dec_mode(s) matches Some((v, rest)) ==> s == display::enc_mode(v) + rest,
{
    broadcast use {codec::group_spelled, codec::lemma_concat_assoc};

}

proof fn lemma_edid_params_spelled(s: Seq<u8>)
    ensures
        display::dec_edid_params(s) matches Some((v, rest)) ==> s == display::enc_edid_params(v)
            + rest,
{
    if display::dec_edid_params(s) is Some {
        let f1 = |id: EdidIdentityView| display::enc_identity(id);
        let g1 = |s: Seq<u8>| display::dec_identity(s);
        let f2 = |r: RefreshRange| display::enc_range(r);
        let g2 = |s: Seq<u8>| display::dec_range(s);
        let f3 = |t: Seq<Option<StandardTiming>>| display::enc_timings(t);
        let g3 = |s: Seq<u8>| display::dec_timings(s);
        let f4 = |m: DetailedMode| display::enc_mode(m);
        let g4 = |s: Seq<u8>| display::dec_mode(s);
        assert forall|s: Seq<u8>| codec::spells(#[trigger] g1(s), s, f1) by {
            lemma_identity_spelled(s);
        }
        assert forall|s: Seq<u8>| codec::spells(#[trigger] g2(s), s, f2) by {
            lemma_range_spelled(s);
        }
        assert forall|s: Seq<u8>| codec::spells(#[trigger] g3(s), s, f3) by {
            lemma_timings_spelled(s);
        }
        assert forall|s: Seq<u8>| codec::spells(#[trigger] g4(s), s, f4) by {
            lemma_mode_spelled(s);
        }
        codec::lemma_u32_spelled(s);
        let (rate, s1) = codec::dec_u32(s).unwrap();
        lemma_physical_size_spelled(s1);
        let (size, s2) = display::dec_physical_size(s1).unwrap();
        lemma_opt_spelled(s2, f1, g1);
        let (a, s3) = display::dec_opt(s2, g1).unwrap();
        lemma_opt_spelled(s3, f2, g2);
        let (b, s4) = display::dec_opt(s3, g2).unwrap();
        lemma_opt_spelled(s4, f3, g3);
        let (c, s5) = display::dec_opt(s4, g3).unwrap();
        lemma_opt_spelled(s5, f4, g4);
        let (d, rest) = display::dec_opt(s5, g4).unwrap();
        let e0 = codec::enc_u32(rate);
        let e1 = display::enc_physical_size(size);
        let e2 = display::enc_opt(a, f1);
        let e3 = display::enc_opt(b, f2);
        let e4 = display::enc_opt(c, f3);
        let e5 = display::enc_opt(d, f4);
        codec::lemma_concat_assoc(e4, e5, rest);
        codec::lemma_concat_assoc(e3, e4 + e5, rest);
        codec::lemma_concat_assoc(e2, e3 + (e4 + e5), rest);
        codec::lemma_concat_assoc(e1, e2 + (e3 + (e4 + e5)), rest);
        codec::lemma_concat_assoc(e0, e1 + (e2 + (e3 + (e4 + e5))), rest);
    }
}

proof fn lemma_display_spelled(s: Seq<u8>)
    requires
        usize::MAX == u64::MAX,
    ensures
        display::dec_display(s) matches Some((v, rest)) ==> s == display::enc_display(v) + rest,
{
    if display::dec_display(s) is Some {
        let (v, rest) = display::dec_display(s).unwrap();
        codec::lemma_u32_spelled(s);
        let s1 = codec::dec_u32(s).unwrap().1;
        codec::lemma_u32_spelled(s1);
        let s2 = codec::dec_u32(s1).unwrap().1;
        codec::lemma_u32_spelled(s2);
        let s3 = codec::dec_u32(s2).unwrap().1;
        codec::lemma_u32_spelled(s3);
        let s4 = codec::dec_u32(s3).unwrap().1;
        codec::lemma_flag_spelled(s4);
        let s5 = codec::dec_flag(s4).unwrap().1;
        codec::lemma_u8_spelled(s5);
        let (tag, s6) = codec::dec_u8(s5).unwrap();
        if tag == 0 {
            lemma_edid_params_spelled(s6);
            let (p, _) = display::dec_edid_params(s6).unwrap();
            codec::lemma_concat_assoc(codec::enc_u8(0), display::enc_edid_params(p), rest);
        } else {
            codec::lemma_blob_spelled(s6);
            let (b, _) = codec::dec_blob(s6).unwrap();
            codec::lemma_concat_assoc(codec::enc_u8(1), codec::enc_blob(b), rest);
        }
        let e5 = display::enc_edid(v.edid);
        let e4 = codec::enc_flag(v.connected);
        let e3 = codec::enc_u32(v.position.1);
        let e2 = codec::enc_u32(v.position.0);
        let e1 = codec::enc_u32(v.height);
        let e0 = codec::enc_u32(v.width);
        assert(s5 == e5 + rest);
        codec::lemma_concat_assoc(e4, e5, rest);
        codec::lemma_concat_assoc(e3, e4 + e5, rest);
        codec::lemma_concat_assoc(e2, e3 + (e4 + e5), rest);
        codec::lemma_concat_assoc(e1, e2 + (e3 + (e4 + e5)), rest);
        codec::lemma_concat_assoc(e0, e1 + (e2 + (e3 + (e4 + e5))), rest);
    }
}

proof fn lemma_u32s_spelled(s: Seq<u8>, n: nat)
    ensures
        gpu_snapshot::dec_u32s(s, n) matches Some((v, rest)) ==> s == gpu_snapshot::enc_u32s(v)
            + rest && v.len() == n,
{
    let f = |x: u32| codec::enc_u32(x);
    let g = |s: Seq<u8>| codec::dec_u32(s);
    assert forall|s: Seq<u8>| codec::spells(#[trigger] g(s), s, f) by {
        codec::lemma_u32_spelled(s);
    }
    codec::lemma_list_spelled(s, n, f, g);
}

proof fn lemma_backing_spelled(s: Seq<u8>)
    requires
        usize::MAX == u64::MAX,
    ensures
        gpu_snapshot::dec_backing(s) matches Some((v, rest)) ==> s == gpu_snapshot::enc_backing(v)
            + rest,
{
    let f = |r: (u64, usize)| gpu_snapshot::enc_range(r);
    let g = |s: Seq<u8>| gpu_snapshot::dec_range(s);
    assert forall|s: Seq<u8>| codec::spells(#[trigger] g(s), s, f) by {
        broadcast use {codec::lemma_u64_spelled, codec::lemma_concat_assoc};

    }
    codec::lemma_u32_spelled(s);
    match codec::dec_count(s, 16) {
        Some((n, t)) => {
            codec::lemma_list_spelled(t, n as nat, f, g);
            match codec::dec_list(t, n as nat, g) {
                Some((v, rest)) => {
                    codec::lemma_concat_assoc(codec::enc_u32(n), codec::enc_list(v, f), rest);
                },
                None => {},
            }
        },
        None => {},
    }
}

proof fn lemma_name_spelled(s: Seq<u8>)
    ensures
        gpu_snapshot::dec_name(s) matches Some((v, rest)) ==> s == gpu_snapshot::enc_name(v) + rest,
{
    codec::lemma_u32_spelled(s);
    match codec::dec_u32(s) {
        Some((n, t)) => {
            codec::lemma_bytes_spelled(t, n as nat);
            match codec::dec_bytes(t, n as nat) {
                Some((b, rest)) => {
                    if vstd::utf8::valid_utf8(b) {
                        let name = vstd::utf8::decode_utf8(b);
                        vstd::utf8::decode_utf8_encode_utf8(b);
                        if name.len() == 0 {
                            assert(name =~= Seq::empty());
                        }
                        codec::lemma_concat_assoc(codec::enc_u32(n), b, rest);
                    }
                },
                None => {},
            }
        },
        None => {},
    }
}

proof fn lemma_plain_op_spelled(tag: u8, v: Seq<u32>)
    requires
        gpu_snapshot::plain_fields(tag) == Some(v.len()),
    ensures
        gpu_snapshot::enc_op(gpu_snapshot::plain_op(tag, v)) == codec::enc_u8(tag)
            + gpu_snapshot::enc_u32s(v),
{
    if tag == 2 || tag == 10 {
        assert(v =~= seq![v[0], v[1]]);
    } else if tag == 5 {
        assert(v =~= seq![v[0], v[1], v[2], v[3], v[4]]);
    } else if tag == 6 {
        assert(v =~= seq![v[0], v[1], v[2], v[3], v[4], v[5], v[6], v[7], v[8], v[9], v[10]]);
    } else {
        assert(v =~= seq![v[0], v[1], v[2], v[3]]);
    }
}

proof fn lemma_op_spelled(s: Seq<u8>)
    requires
        usize::MAX == u64::MAX,
    ensures
        gpu_snapshot::dec_op(s) matches Some((v, rest)) ==> s == gpu_snapshot::enc_op(v) + rest,
{
    if gpu_snapshot::dec_op(s) is Some {
        let (op, rest) = gpu_snapshot::dec_op(s).unwrap();
        codec::lemma_u8_spelled(s);
        let (tag, t) = codec::dec_u8(s).unwrap();
        let e0 = codec::enc_u8(tag);
        match gpu_snapshot::plain_fields(tag) {
            Some(n) => {
                lemma_u32s_spelled(t, n);
                let (v, _) = gpu_snapshot::dec_u32s(t, n).unwrap();
                lemma_plain_op_spelled(tag, v);
                codec::lemma_concat_assoc(e0, gpu_snapshot::enc_u32s(v), rest);
            },
            None => {
                if tag == 1 {
                    lemma_u32s_spelled(t, 2);
                    let (v, t1) = gpu_snapshot::dec_u32s(t, 2).unwrap();
                    lemma_name_spelled(t1);
                    let (name, _) = gpu_snapshot::dec_name(t1).unwrap();
                    assert(v =~= seq![v[0], v[1]]);
                    let e1 = gpu_snapshot::enc_u32s(v);
                    let e2 = gpu_snapshot::enc_name(name);
                    codec::lemma_concat_assoc(e1, e2, rest);
                    codec::lemma_concat_assoc(e0, e1 + e2, rest);
                } else if tag == 3 {
                    lemma_u32s_spelled(t, 4);
                    let (v, t1) = gpu_snapshot::dec_u32s(t, 4).unwrap();
                    codec::lemma_u64_spelled(t1);
                    let (blob_id, t2) = codec::dec_u64(t1).unwrap();
                    codec::lemma_u64_spelled(t2);
                    let (size, t3) = codec::dec_u64(t2).unwrap();
                    lemma_backing_spelled(t3);
                    let (backing, _) = gpu_snapshot::dec_backing(t3).unwrap();
                    assert(v =~= seq![v[0], v[1], v[2], v[3]]);
                    let e1 = gpu_snapshot::enc_u32s(v);
                    let e2 = codec::enc_u64(blob_id);
                    let e3 = codec::enc_u64(size);
                    let e4 = gpu_snapshot::enc_backing(backing);
                    codec::lemma_concat_assoc(e3, e4, rest);
                    codec::lemma_concat_assoc(e2, e3 + e4, rest);
                    codec::lemma_concat_assoc(e1, e2 + (e3 + e4), rest);
                    codec::lemma_concat_assoc(e0, e1 + (e2 + (e3 + e4)), rest);
                } else if tag == 4 {
                    broadcast use {codec::group_spelled, codec::lemma_concat_assoc};

                } else {
                    codec::lemma_u32_spelled(t);
                    let (id, t1) = codec::dec_u32(t).unwrap();
                    lemma_backing_spelled(t1);
                    let (backing, _) = gpu_snapshot::dec_backing(t1).unwrap();
                    let e1 = codec::enc_u32(id);
                    let e2 = gpu_snapshot::enc_backing(backing);
                    codec::lemma_concat_assoc(e1, e2, rest);
                    codec::lemma_concat_assoc(e0, e1 + e2, rest);
                }
            },
        }
    }
}

proof fn lemma_counted_spelled<T>(
    s: Seq<u8>,
    f: spec_fn(T) -> Seq<u8>,
    g: spec_fn(Seq<u8>) -> Decoded<T>,
)
    requires
        forall|s: Seq<u8>| codec::spells(#[trigger] g(s), s, f),
    ensures
        snapshot_laws::counted(s, g) matches Some((v, rest)) ==> s == (codec::enc_u32(v.len() as u32)
            + codec::enc_list(v, f)) + rest,
{
    codec::lemma_u32_spelled(s);
    match codec::dec_u32(s) {
        Some((n, t)) => {
            codec::lemma_list_spelled(t, n as nat, f, g);
            match codec::dec_list(t, n as nat, g) {
                Some((v, rest)) => {
                    codec::lemma_concat_assoc(codec::enc_u32(n), codec::enc_list(v, f), rest);
                },
                None => {},
            }
        },
        None => {},
    }
}

proof fn lemma_ops_spelled(s: Seq<u8>)
    requires
        usize::MAX == u64::MAX,
    ensures
        gpu_snapshot::dec_ops(s) matches Some((v, rest)) ==> s == gpu_snapshot::enc_ops(v) + rest,
{
    let f = |e: (u64, GpuJournalOpView)| gpu_snapshot::enc_entry(e);
    let g = |s: Seq<u8>| gpu_snapshot::dec_entry(s);
    assert forall|s: Seq<u8>| codec::spells(#[trigger] g(s), s, f) by {
        codec::lemma_u64_spelled(s);
        match codec::dec_u64(s) {
            Some((seq, t)) => {
                lemma_op_spelled(t);
                match gpu_snapshot::dec_op(t) {
                    Some((op, rest)) => {
                        codec::lemma_concat_assoc(
                            codec::enc_u64(seq),
                            gpu_snapshot::enc_op(op),
                            rest,
                        );
                    },
                    None => {},
                }
            },
            None => {},
        }
    }
    lemma_counted_spelled(s, f, g);
}

proof fn lemma_tagged_spelled(s: Seq<u8>)
    requires
        usize::MAX == u64::MAX,
    ensures
        gpu_snapshot::dec_tagged(s) matches Some((v, rest)) ==> s == gpu_snapshot::enc_tagged(v)
            + rest,
{
    let f = |e: (u32, Seq<u8>)| gpu_snapshot::enc_tagged_entry(e);
    let g = |s: Seq<u8>| gpu_snapshot::dec_tagged_entry(s);
    assert forall|s: Seq<u8>| codec::spells(#[trigger] g(s), s, f) by {
        codec::lemma_u32_spelled(s);
        match codec::dec_u32(s) {
            Some((id, t)) => {
                codec::lemma_blob_spelled(t);
                match codec::dec_blob(t) {
                    Some((b, rest)) => {
                        codec::lemma_concat_assoc(codec::enc_u32(id), codec::enc_blob(b), rest);
                    },
                    None => {},
                }
            },
            None => {},
        }
    }
    lemma_counted_spelled(s, f, g);
}

proof fn lemma_memory_spelled(s: Seq<u8>)
    requires
        usize::MAX == u64::MAX,
    ensures
        gpu_snapshot::dec_memory(s) matches Some((v, rest)) ==> s == gpu_snapshot::enc_memory(v)
            + rest,
{
    let f = |e: (u32, u64, Seq<u8>)| gpu_snapshot::enc_memory_entry(e);
    let g = |s: Seq<u8>| gpu_snapshot::dec_memory_entry(s);
    assert forall|s: Seq<u8>| codec::spells(#[trigger] g(s), s, f) by {
        codec::lemma_u32_spelled(s);
        match codec::dec_u32(s) {
            Some((id, t)) => {
                codec::lemma_u64_spelled(t);
                match codec::dec_u64(t) {
                    Some((mem, u)) => {
                        codec::lemma_blob_spelled(u);
                        match codec::dec_blob(u) {
                            Some((b, rest)) => {
                                let e1 = codec::enc_u64(mem);
                                let e2 = codec::enc_blob(b);
                                codec::lemma_concat_assoc(e1, e2, rest);
                                codec::lemma_concat_assoc(codec::enc_u32(id), e1 + e2, rest);
                            },
                            None => {},
                        }
                    },
                    None => {},
                }
            },
            None => {},
        }
    }
    lemma_counted_spelled(s, f, g);
}

proof fn lemma_cursor_spelled(s: Seq<u8>)
    requires
        usize::MAX == u64::MAX,
        codec::dec_u8(s) matches Some((tag, _)) ==> tag != 1,
    ensures
        gpu_snapshot::dec_cursor(s) matches Some((v, rest)) ==> s == gpu_snapshot::enc_cursor(v)
            + rest,
{
    if gpu_snapshot::dec_cursor(s) is Some {
        codec::lemma_u8_spelled(s);
        let (tag, t) = codec::dec_u8(s).unwrap();
        if tag == 2 {
            lemma_u32s_spelled(t, 8);
            let (v, t1) = gpu_snapshot::dec_u32s(t, 8).unwrap();
            codec::lemma_blob_spelled(t1);
            let (b, rest) = codec::dec_blob(t1).unwrap();
            assert(v =~= seq![v[0], v[1], v[2], v[3], v[4], v[5], v[6], v[7]]);
            let e1 = gpu_snapshot::enc_u32s(v);
            let e2 = codec::enc_blob(b);
            codec::lemma_concat_assoc(e1, e2, rest);
            codec::lemma_concat_assoc(codec::enc_u8(2), e1 + e2, rest);
        }
    }
}

proof fn lemma_displays_spelled(s: Seq<u8>)
    requires
        usize::MAX == u64::MAX,
    ensures
        gpu_snapshot::dec_displays(s) matches Some((v, rest)) ==> s == gpu_snapshot::enc_displays(v)
            + rest,
{
    let f = |d: DisplayInfoView| display::enc_display(d);
    let g = |s: Seq<u8>| display::dec_display(s);
    assert forall|s: Seq<u8>| codec::spells(#[trigger] g(s), s, f) by {
        lemma_display_spelled(s);
    }
    lemma_counted_spelled(s, f, g);
}

proof fn lemma_frames_spelled(s: Seq<u8>)
    requires
        usize::MAX == u64::MAX,
    ensures
        gpu_snapshot::dec_frames(s) matches Some((v, rest)) ==> s == gpu_snapshot::enc_frames(v)
            + rest,
{
    let f = |f: ScanoutFrameView| gpu_snapshot::enc_frame(f);
    let g = |s: Seq<u8>| gpu_snapshot::dec_frame(s);
    assert forall|s: Seq<u8>| codec::spells(#[trigger] g(s), s, f) by {
        lemma_u32s_spelled(s, 3);
        match gpu_snapshot::dec_u32s(s, 3) {
            Some((v, t)) => {
                codec::lemma_blob_spelled(t);
                match codec::dec_blob(t) {
                    Some((b, rest)) => {
                        assert(v =~= seq![v[0], v[1], v[2]]);
                        codec::lemma_concat_assoc(
                            gpu_snapshot::enc_u32s(v),
                            codec::enc_blob(b),
                            rest,
                        );
                    },
                    None => {},
                }
            },
            None => {},
        }
    }
    lemma_counted_spelled(s, f, g);
}

/// What is left behind the sections before the cursor.
pub open spec fn cursor_section(s: Seq<u8>) -> Option<Seq<u8>> {
    match gpu_snapshot::dec_tagged(s) {
        Some((_, s)) => match gpu_snapshot::dec_tagged(s) {
            Some((_, s)) => match gpu_snapshot::dec_memory(s) {
                Some((_, s)) => match gpu_snapshot::dec_tagged(s) {
                    Some((_, s)) => Some(s),
                    None => None,
                },
                None => None,
            },
            None => None,
        },
        None => None,
    }
}

/// The cursor section at the front of `s` has the layout without a scanout id.
pub open spec fn old_cursor(s: Seq<u8>) -> bool {
    codec::dec_u8(s) matches Some((tag, _)) && tag == 1
}

/// The payload at the front of `s` has a cursor in the layout without a scanout id, which is read
/// and no longer written.
pub open spec fn has_old_cursor(s: Seq<u8>) -> bool {
    match codec::dec_u32(s) {
        Some((_, s)) => match codec::dec_u32(s) {
            Some((_, s)) => match gpu_snapshot::dec_ops(s) {
                Some((_, s)) => match cursor_section(s) {
                    Some(s) => old_cursor(s),
                    None => false,
                },
                None => false,
            },
            None => false,
        },
        None => false,
    }
}

proof fn lemma_sections_spelled(ops: Seq<(u64, GpuJournalOpView)>, s: Seq<u8>)
    requires
        usize::MAX == u64::MAX,
        cursor_section(s) matches Some(c) ==> !old_cursor(c),
    ensures
        gpu_snapshot::dec_sections(ops, s) matches Some((p, rest)) ==> s
            == gpu_snapshot::enc_sections(p) + rest,
{
    if gpu_snapshot::dec_sections(ops, s) is Some {
        let (p, rest) = gpu_snapshot::dec_sections(ops, s).unwrap();
        lemma_tagged_spelled(s);
        let s2 = gpu_snapshot::dec_tagged(s).unwrap().1;
        lemma_tagged_spelled(s2);
        let s3 = gpu_snapshot::dec_tagged(s2).unwrap().1;
        lemma_memory_spelled(s3);
        let s4 = gpu_snapshot::dec_memory(s3).unwrap().1;
        lemma_tagged_spelled(s4);
        let s5 = gpu_snapshot::dec_tagged(s4).unwrap().1;
        lemma_cursor_spelled(s5);
        let s6 = gpu_snapshot::dec_cursor(s5).unwrap().1;
        lemma_tagged_spelled(s6);
        let s7 = gpu_snapshot::dec_tagged(s6).unwrap().1;
        lemma_displays_spelled(s7);
        let s8 = gpu_snapshot::dec_displays(s7).unwrap().1;
        lemma_frames_spelled(s8);
        let e9 = gpu_snapshot::enc_frames(p.scanout_frames);
        let e8 = gpu_snapshot::enc_displays(p.displays);
        let e7 = gpu_snapshot::enc_tagged(p.classic_contents);
        let e6 = gpu_snapshot::enc_cursor(p.cursor);
        let e5 = gpu_snapshot::enc_tagged(p.sync_states);
        let e4 = gpu_snapshot::enc_memory(p.memory_contents);
        let e3 = gpu_snapshot::enc_tagged(p.blob_contents);
        let e2 = gpu_snapshot::enc_tagged(p.vkr_journals);
        let t8 = e8 + e9;
        let t7 = e7 + t8;
        let t6 = e6 + t7;
        let t5 = e5 + t6;
        let t4 = e4 + t5;
        let t3 = e3 + t4;
        codec::lemma_concat_assoc(e8, e9, rest);
        codec::lemma_concat_assoc(e7, t8, rest);
        codec::lemma_concat_assoc(e6, t7, rest);
        codec::lemma_concat_assoc(e5, t6, rest);
        codec::lemma_concat_assoc(e4, t5, rest);
        codec::lemma_concat_assoc(e3, t4, rest);
        codec::lemma_concat_assoc(e2, t3, rest);
    }
}

/// What is accepted is, written again, what was read, byte for byte, up to the bytes behind it that
/// are ignored. So no payload has two spellings. A cursor in the layout without a scanout id is
/// read, but never written; and lengths keep all their bits only where addresses have as many.
pub proof fn law_payload_has_one_spelling(s: Seq<u8>, p: GpuSnapshotPayloadView, rest: Seq<u8>)
    requires
        usize::MAX == u64::MAX,
        gpu_snapshot::dec_payload(s) == Some((p, rest)),
        !has_old_cursor(s),
    ensures
        s == gpu_snapshot::enc_payload(p) + rest,
{
    codec::lemma_u32_spelled(s);
    let (magic, s1) = codec::dec_u32(s).unwrap();
    codec::lemma_u32_spelled(s1);
    let (version, s2) = codec::dec_u32(s1).unwrap();
    lemma_ops_spelled(s2);
    let (ops, s3) = gpu_snapshot::dec_ops(s2).unwrap();
    lemma_sections_spelled(ops, s3);
    assert(gpu_snapshot::unnumbered(gpu_snapshot::numbered(ops)) =~= ops);
    let e0 = codec::enc_u32(magic);
    let e1 = codec::enc_u32(version);
    let e2 = gpu_snapshot::enc_ops(ops);
    let e3 = gpu_snapshot::enc_sections(p);
    codec::lemma_concat_assoc(e2, e3, rest);
    codec::lemma_concat_assoc(e1, e2 + e3, rest);
    codec::lemma_concat_assoc(e0, e1 + (e2 + e3), rest);
}

} // verus!
