//! Which bytes go where: guest memory into pictures, pictures onto scanouts, payloads into lists.
use crate::codec;
use crate::gpu::flush;
use crate::gpu::payload;
use crate::gpu::protocol::GpuResponseView;
use crate::gpu::resource;
use crate::gpu::resource::Sw2dView;
use crate::gpu::scanout;
use crate::gpu::scanout::AssociatedScanouts;
use vstd::prelude::*;

verus! {

/// The scanouts that show a resource, in ascending order and each once: all of them below the
/// number asked for and no others.
pub proof fn law_enabled_scanouts(a: AssociatedScanouts, n: u32)
    ensures
        forall|i: int, j: int|
            0 <= i < j < a.enabled(n).len() ==> #[trigger] a.enabled(n)[i]
                < #[trigger] a.enabled(n)[j],
        forall|i: int|
            0 <= i < a.enabled(n).len() ==> #[trigger] a.enabled(n)[i] < n && a.has(
                a.enabled(n)[i],
            ),
        forall|s: u32| s < n && #[trigger] a.has(s) ==> a.enabled(n).contains(s),
    decreases n,
{
    if n > 0 {
        let m = (n - 1) as u32;
        law_enabled_scanouts(a, m);
        assert forall|s: u32| s < n && #[trigger] a.has(s) implies a.enabled(n).contains(s) by {
            if s == m {
                assert(a.enabled(n)[a.enabled(m).len() as int] == s);
            } else {
                assert(a.enabled(m).contains(s));
                let k = choose|k: int| 0 <= k < a.enabled(m).len() && a.enabled(m)[k] == s;
                assert(a.enabled(n)[k] == s);
            }
        }
    }
}

/// A flush goes on with the lowest of the scanouts that are left, and ends only where there is
/// none.
pub proof fn law_flush_misses_no_scanout(a: AssociatedScanouts, from: u32, s: u32)
    requires
        from <= s < 16,
    ensures
        flush::next_enabled(a, from) matches Some(t) ==> from <= t < 16 && a.has(t) && (s < t
            ==> !a.has(s)),
        flush::next_enabled(a, from) is None ==> !a.has(s),
    decreases 16 - from,
{
    if from < 16 && !a.has(from) {
        if s > from {
            law_flush_misses_no_scanout(a, (from + 1) as u32, s);
        } else {
            lemma_next_above(a, (from + 1) as u32);
        }
    }
}

proof fn lemma_next_above(a: AssociatedScanouts, from: u32)
    ensures
        flush::next_enabled(a, from) matches Some(t) ==> from <= t < 16 && a.has(t),
    decreases 16 - from,
{
    if from < 16 && !a.has(from) {
        lemma_next_above(a, (from + 1) as u32);
    }
}

proof fn lemma_cut(ranges: Seq<(u64, usize)>, room: nat, n: nat)
    requires
        n <= ranges.len(),
    ensures
        ({
            let cut = resource::ranges_within(ranges, room, n);
            let all = resource::total_len(ranges.take(n as int));
            &&& cut.len() <= n
            &&& resource::total_len(cut) == if all <= room {
                all
            } else {
                room
            }
            &&& forall|i: int|
                0 <= i < cut.len() ==> (#[trigger] cut[i]).0 == ranges[i].0 && cut[i].1
                    <= ranges[i].1
            &&& resource::total_len(cut) < room ==> cut.len() == n && forall|i: int|
                0 <= i < n ==> #[trigger] cut[i] == ranges[i]
            &&& forall|i: int| 0 <= i < cut.len() - 1 ==> #[trigger] cut[i] == ranges[i]
        }),
    decreases n,
{
    if n > 0 {
        let m = (n - 1) as nat;
        lemma_cut(ranges, room, m);
        let before = resource::ranges_within(ranges, room, m);
        let cut = resource::ranges_within(ranges, room, n);
        assert(ranges.take(n as int).drop_last() =~= ranges.take(m as int));
        let left = room - resource::total_len(before);
        if left > 0 {
            assert(cut.drop_last() =~= before);
        }
    }
}

/// The guest memory that a picture is filled from is its backing, range by range from the front,
/// as much of it as the picture has room for and no more.
pub proof fn law_backing_is_read_as_far_as_there_is_room(v: Sw2dView, i: int)
    requires
        0 <= i < v.wanted().len(),
    ensures
        v.wanted().len() <= v.backing.len(),
        v.wanted()[i].0 == v.backing[i].0,
        v.wanted()[i].1 <= v.backing[i].1,
        i < v.wanted().len() - 1 ==> v.wanted()[i] == v.backing[i],
        resource::total_len(v.backing) <= v.host.len() ==> resource::total_len(v.wanted())
            == resource::total_len(v.backing),
        resource::total_len(v.backing) > v.host.len() ==> resource::total_len(v.wanted())
            == v.host.len(),
{
    lemma_cut(v.backing, v.host.len(), v.backing.len());
    assert(v.backing.take(v.backing.len() as int) =~= v.backing);
}

/// What was read lies at the front of the picture, byte for byte, and behind it the picture is as
/// it was; its size and its backing stay.
pub proof fn law_picture_is_filled_from_the_front(v: Sw2dView, bytes: Seq<u8>, i: int)
    requires
        0 <= i < v.host.len(),
    ensures
        v.filled(bytes).host.len() == v.host.len(),
        v.filled(bytes).backing == v.backing,
        i < bytes.len() ==> v.filled(bytes).host[i] == bytes[i],
        i >= bytes.len() ==> v.filled(bytes).host[i] == v.host[i],
{
}

proof fn lemma_all_rows(d: nat, ds: nat, s: nat, ss: nat, rows: nat, k: nat)
    requires
        k <= rows,
        rows > 0 ==> rows * ds <= d && (rows - 1) * ss + ds <= s,
    ensures
        scanout::rows_copied(d, ds, s, ss, k) == k,
    decreases k,
{
    if k > 0 {
        lemma_all_rows(d, ds, s, ss, rows, (k - 1) as nat);
        let y = (k - 1) as nat;
        assert(y * ss + ds <= s && y * ds + ds <= d) by (nonlinear_arith)
            requires
                y <= rows - 1,
                rows * ds <= d,
                (rows - 1) * ss + ds <= s,
        ;
    }
}

/// Every byte of every row keeps its place in the row: whether the source's rows are padded or
/// not, what is at `x` of row `y` of the source is at `x` of row `y` afterwards.
pub proof fn law_rows_do_not_shear(
    before: Seq<u8>,
    after: Seq<u8>,
    dst_stride: nat,
    src: Seq<u8>,
    src_stride: nat,
    rows: nat,
    y: int,
    x: int,
)
    requires
        scanout::blitted(before, after, dst_stride, src, src_stride, rows),
        0 <= y < rows,
        0 <= x < dst_stride,
        rows * dst_stride <= before.len(),
        (rows - 1) * src_stride + dst_stride <= src.len(),
    ensures
        after.len() == before.len(),
        after[y * dst_stride + x] == src[y * src_stride + x],
{
    lemma_all_rows(before.len(), dst_stride, src.len(), src_stride, rows, rows);
    assert(0 <= y * dst_stride + x < rows * dst_stride && 0 <= y * src_stride + x < (rows - 1)
        * src_stride + dst_stride) by (nonlinear_arith)
        requires
            0 <= y < rows,
            0 <= x < dst_stride,
    ;
}

/// What lies behind the rows of a padded source is left as it is.
pub proof fn law_nothing_is_written_behind_the_rows(
    before: Seq<u8>,
    after: Seq<u8>,
    dst_stride: nat,
    src: Seq<u8>,
    src_stride: nat,
    rows: nat,
    p: int,
)
    requires
        scanout::blitted(before, after, dst_stride, src, src_stride, rows),
        src_stride != dst_stride,
        rows * dst_stride <= p < before.len(),
    ensures
        after[p] == before[p],
{
    lemma_rows_at_most(before.len(), dst_stride, src.len(), src_stride, rows);
    let k = scanout::rows_copied(before.len(), dst_stride, src.len(), src_stride, rows);
    assert(k * dst_stride <= rows * dst_stride) by (nonlinear_arith)
        requires
            k <= rows,
    ;
}

proof fn lemma_rows_at_most(d: nat, ds: nat, s: nat, ss: nat, rows: nat)
    ensures
        scanout::rows_copied(d, ds, s, ss, rows) <= rows,
    decreases rows,
{
    if rows > 0 {
        lemma_rows_at_most(d, ds, s, ss, (rows - 1) as nat);
    }
}

proof fn lemma_entries(s: Seq<u8>, n: nat)
    ensures
        ({
            let r = codec::dec_list(s, n, |s: Seq<u8>| payload::dec_mem_entry(s));
            &&& r is Some == (16 * n <= s.len())
            &&& r matches Some((v, rest)) ==> v.len() == n && rest == s.skip(16 * n as int)
                && forall|i: int|
                0 <= i < n ==> (#[trigger] v[i]).0 == codec::dec_u64(s.skip(16 * i)).unwrap().0
                    && v[i].1 == codec::dec_u32(s.skip(16 * i + 8)).unwrap().0
        }),
    decreases n,
{
    let g = |s: Seq<u8>| payload::dec_mem_entry(s);
    if n == 0 {
        assert(s.skip(0) =~= s);
    } else {
        let m = (n - 1) as nat;
        lemma_entries(s, m);
        if 16 * m <= s.len() {
            let (v, rest) = codec::dec_list(s, m, g).unwrap();
            codec::law_numbers_are_read(rest);
            codec::law_numbers_are_read(rest.skip(8));
            codec::law_numbers_are_read(rest.skip(8).skip(4));
            if rest.len() >= 16 {
                assert(rest.skip(8) =~= s.skip((16 * m + 8) as int));
                assert(rest.skip(8).skip(4).skip(4) =~= s.skip(16 * n as int));
            }
        }
    }
}

/// The guest memory ranges of a command are sixteen bytes each: an address in eight, a length in
/// four, and four that do not count. There are as many as the command says, or none.
pub proof fn law_memory_ranges_on_the_wire(s: Seq<u8>, n: u32, i: int)
    ensures
        payload::mem_entries(s, n) is Some <==> 16 * n <= s.len(),
        payload::mem_entries(s, n) is Some ==> payload::mem_entries(s, n).unwrap().len() == n,
        payload::mem_entries(s, n) is Some && 0 <= i < n ==> {
            let r = payload::mem_entries(s, n).unwrap()[i];
            let at = 16 * i;
            &&& r.0 % 0x1_0000_0000 == s[at] + 256 * s[at + 1] + 65536 * s[at + 2] + 16777216 * s[at
                + 3]
            &&& r.0 / 0x1_0000_0000 == s[at + 4] + 256 * s[at + 5] + 65536 * s[at + 6] + 16777216
                * s[at + 7]
            &&& r.1 == s[at + 8] + 256 * s[at + 9] + 65536 * s[at + 10] + 16777216 * s[at + 11]
        },
{
    lemma_entries(s, n as nat);
    if 16 * n <= s.len() && 0 <= i < n {
        codec::law_numbers_are_read(s.skip(16 * i));
        codec::law_numbers_are_read(s.skip(16 * i + 8));
    }
}

proof fn lemma_ids(s: Seq<u8>, n: nat)
    ensures
        ({
            let r = codec::dec_list(s, n, |s: Seq<u8>| codec::dec_u64(s));
            &&& r is Some == (8 * n <= s.len())
            &&& r matches Some((v, rest)) ==> v.len() == n && rest == s.skip(8 * n as int)
                && forall|i: int|
                0 <= i < n ==> #[trigger] v[i] == codec::dec_u64(s.skip(8 * i)).unwrap().0
        }),
    decreases n,
{
    let g = |s: Seq<u8>| codec::dec_u64(s);
    if n == 0 {
        assert(s.skip(0) =~= s);
    } else {
        let m = (n - 1) as nat;
        lemma_ids(s, m);
        if 8 * m <= s.len() {
            let (v, rest) = codec::dec_list(s, m, g).unwrap();
            codec::law_numbers_are_read(rest);
            if rest.len() >= 8 {
                assert(rest.skip(8) =~= s.skip(8 * n as int));
            }
        }
    }
}

/// A submission is the fences it waits for, eight bytes each, and behind them the command buffer,
/// of the size that the command says. One with too few fences or too short a buffer is refused.
pub proof fn law_submission_on_the_wire(s: Seq<u8>, fences: u32, size: u32, i: int)
    ensures
        ({
            let r = payload::submission(s, fences, size);
            &&& s.len() < 8 * fences ==> r == Err::<(Seq<u64>, Seq<u8>), GpuResponseView>(
                GpuResponseView::ErrUnspec,
            )
            &&& 8 * fences <= s.len() < 8 * fences + size ==> r == Err::<
                (Seq<u64>, Seq<u8>),
                GpuResponseView,
            >(GpuResponseView::ErrInvalidParameter)
            &&& s.len() >= 8 * fences + size ==> {
                &&& r matches Ok((ids, buf))
                &&& ids.len() == fences
                &&& 0 <= i < fences ==> ids[i] % 0x1_0000_0000 == s[8 * i] + 256 * s[8 * i + 1]
                    + 65536 * s[8 * i + 2] + 16777216 * s[8 * i + 3]
                &&& 0 <= i < fences ==> ids[i] / 0x1_0000_0000 == s[8 * i + 4] + 256 * s[8 * i + 5]
                    + 65536 * s[8 * i + 6] + 16777216 * s[8 * i + 7]
                &&& buf.len() == size
                &&& 0 <= i < size ==> buf[i] == s[8 * fences + i]
            }
        }),
{
    lemma_ids(s, fences as nat);
    if 0 <= i < fences && 8 * fences <= s.len() {
        codec::law_numbers_are_read(s.skip(8 * i));
    }
}

} // verus!
