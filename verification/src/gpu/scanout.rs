//! Scanouts: which of them show a resource, and how pixels reach them.
use crate::gpu::protocol::VIRTIO_GPU_MAX_SCANOUTS;
use vstd::prelude::*;

verus! {

/// The scanouts that show a resource, one bit each.
#[derive(Copy, Clone, PartialEq, Eq, Structural, Debug)]
pub struct AssociatedScanouts(pub u32);

impl Default for AssociatedScanouts {
    fn default() -> (r: Self)
        ensures
            r.0 == 0,
            forall|i: u32| i < 32 ==> !#[trigger] r.has(i),
    {
        let r = AssociatedScanouts(0);
        assert forall|i: u32| i < 32 implies !#[trigger] r.has(i) by {
            assert((0u32 >> i) & 1 == 0) by (bit_vector);
        }
        r
    }
}

impl AssociatedScanouts {
    /// Scanout `i` shows the resource.
    pub open spec fn has(self, i: u32) -> bool {
        (self.0 >> i) & 1 == 1
    }

    /// The enabled scanouts below `n`, in ascending order.
    pub open spec fn enabled(self, n: u32) -> Seq<u32>
        decreases n,
    {
        if n == 0 {
            Seq::empty()
        } else if self.has((n - 1) as u32) {
            self.enabled((n - 1) as u32).push((n - 1) as u32)
        } else {
            self.enabled((n - 1) as u32)
        }
    }

    /// With scanout `i` enabled.
    pub open spec fn with(self, i: u32) -> Self {
        AssociatedScanouts(self.0 | (1u32 << i))
    }

    /// With scanout `i` flipped.
    pub open spec fn flipped(self, i: u32) -> Self {
        AssociatedScanouts(self.0 ^ (1u32 << i))
    }

    /// Notes that `scanout_id` shows the resource.
    pub fn enable(&mut self, scanout_id: u32)
        requires
            scanout_id < 32,
        ensures
            *final(self) == old(self).with(scanout_id),
            forall|i: u32|
                i < 32 ==> #[trigger] final(self).has(i) == (i == scanout_id || old(self).has(i)),
    {
        self.0 = self.0 | (1u32 << scanout_id);
        assert forall|i: u32| i < 32 implies #[trigger] self.has(i) == (i == scanout_id || old(
            self,
        ).has(i)) by {
            lemma_bits(*old(self), scanout_id, i);
        }
    }

    /// Flips whether `scanout_id` shows the resource: what was enabled no longer is.
    pub fn disable(&mut self, scanout_id: u32)
        requires
            scanout_id < 32,
        ensures
            *final(self) == old(self).flipped(scanout_id),
            forall|i: u32|
                i < 32 ==> #[trigger] final(self).has(i) == (if i == scanout_id {
                    !old(self).has(i)
                } else {
                    old(self).has(i)
                }),
    {
        self.0 = self.0 ^ (1u32 << scanout_id);
        assert forall|i: u32| i < 32 implies #[trigger] self.has(i) == (if i == scanout_id {
            !old(self).has(i)
        } else {
            old(self).has(i)
        }) by {
            lemma_bits(*old(self), scanout_id, i);
        }
    }

    /// Whether any scanout shows the resource.
    pub fn has_any_enabled(self) -> (r: bool)
        ensures
            r == (exists|i: u32| i < 32 && #[trigger] self.has(i)),
    {
        let m: u32 = self.0;
        proof {
            if m != 0 {
                lemma_some_bit(m);
            } else {
                assert forall|i: u32| i < 32 implies !#[trigger] self.has(i) by {
                    assert((0u32 >> i) & 1 == 0) by (bit_vector);
                }
            }
        }
        m != 0
    }

    /// The enabled scanouts in ascending order.
    pub fn iter_enabled(self) -> (r: Vec<u32>)
        ensures
            r@ == self.enabled(VIRTIO_GPU_MAX_SCANOUTS),
    {
        let mut r: Vec<u32> = Vec::new();
        let mut i: u32 = 0;
        while i < VIRTIO_GPU_MAX_SCANOUTS
            invariant
                i <= VIRTIO_GPU_MAX_SCANOUTS,
                r@ == self.enabled(i),
            decreases VIRTIO_GPU_MAX_SCANOUTS - i,
        {
            if (self.0 >> i) & 1 == 1 {
                r.push(i);
            }
            i = i + 1;
        }
        r
    }
}

/// What enabling and flipping scanout `id` does to the bit of scanout `i`.
pub proof fn lemma_bits(a: AssociatedScanouts, id: u32, i: u32)
    requires
        id < 32,
        i < 32,
    ensures
        a.with(id).has(i) == (i == id || a.has(i)),
        a.flipped(id).has(i) == (if i == id {
            !a.has(i)
        } else {
            a.has(i)
        }),
{
    let m = a.0;
    assert((((m | (1u32 << id)) >> i) & 1 == 1) == (i == id || ((m >> i) & 1 == 1))) by (bit_vector)
        requires
            i < 32,
            id < 32,
    ;
    assert((((m ^ (1u32 << id)) >> i) & 1 == 1) == (if i == id {
        !((m >> i) & 1 == 1)
    } else {
        (m >> i) & 1 == 1
    })) by (bit_vector)
        requires
            i < 32,
            id < 32,
    ;
}

/// A number other than zero has a bit set.
proof fn lemma_some_bit(m: u32)
    requires
        m != 0,
    ensures
        exists|i: u32| i < 32 && #[trigger] AssociatedScanouts(m).has(i),
    decreases m,
{
    if m & 1 == 1 {
        assert((m >> 0u32) & 1 == m & 1) by (bit_vector);
        assert(AssociatedScanouts(m).has(0));
    } else {
        let h = m / 2;
        assert(h != 0) by (bit_vector)
            requires
                m != 0,
                m & 1 == 0 || m & 1 != 1,
                h == m / 2,
        ;
        lemma_some_bit(h);
        let j = choose|i: u32| i < 32 && #[trigger] AssociatedScanouts(h).has(i);
        let k = (j + 1) as u32;
        assert(k < 32 && (m >> k) & 1 == 1) by (bit_vector)
            requires
                j < 32,
                k == j + 1,
                h == m / 2,
                (h >> j) & 1 == 1,
        ;
        assert(AssociatedScanouts(m).has(k));
    }
}

/// What a scanout shows.
#[derive(Clone, Copy, PartialEq, Eq, Structural, Debug)]
pub struct VirtioGpuScanout {
    pub resource_id: u32,
    /// The visible region, which is also the size of the host's staging buffer. The resource
    /// behind it can be larger.
    pub width: u32,
    pub height: u32,
    /// The surface to present without a copy, where the resource has one.
    pub iosurface_id: Option<u32>,
}

/// Row `y` lies within both buffers.
pub open spec fn row_fits(
    dst_len: nat,
    dst_stride: nat,
    src_len: nat,
    src_stride: nat,
    y: nat,
) -> bool {
    y * src_stride + dst_stride <= src_len && y * dst_stride + dst_stride <= dst_len
}

/// How many of the first `rows` rows are copied: all before the first that does not fit.
pub open spec fn rows_copied(
    dst_len: nat,
    dst_stride: nat,
    src_len: nat,
    src_stride: nat,
    rows: nat,
) -> nat
    decreases rows,
{
    if rows == 0 {
        0
    } else {
        let before = rows_copied(dst_len, dst_stride, src_len, src_stride, (rows - 1) as nat);
        if before == rows - 1 && row_fits(
            dst_len,
            dst_stride,
            src_len,
            src_stride,
            (rows - 1) as nat,
        ) {
            rows
        } else {
            before
        }
    }
}

/// `dst` after the copy: where the strides match a flat copy, else the first `dst_stride` bytes of
/// each source row, row by row.
pub open spec fn blitted(
    before: Seq<u8>,
    after: Seq<u8>,
    dst_stride: nat,
    src: Seq<u8>,
    src_stride: nat,
    rows: nat,
) -> bool {
    if src_stride == dst_stride {
        let n = if before.len() <= src.len() {
            before.len()
        } else {
            src.len()
        };
        after == src.take(n as int) + before.skip(n as int)
    } else {
        let k = rows_copied(before.len(), dst_stride, src.len(), src_stride, rows);
        &&& after.len() == before.len()
        &&& forall|y: int, x: int|
            0 <= y < k && 0 <= x < dst_stride ==> #[trigger] after[y * dst_stride + x] == src[y
                * src_stride + x]
        &&& forall|p: int| k * dst_stride <= p < before.len() ==> #[trigger] after[p] == before[p]
    }
}

proof fn lemma_rows_stop(
    dst_len: nat,
    dst_stride: nat,
    src_len: nat,
    src_stride: nat,
    k: nat,
    rows: nat,
)
    requires
        k <= rows,
        rows_copied(dst_len, dst_stride, src_len, src_stride, k) == k,
        k < rows ==> !row_fits(dst_len, dst_stride, src_len, src_stride, k),
    ensures
        rows_copied(dst_len, dst_stride, src_len, src_stride, rows) == k,
    decreases rows - k,
{
    if k < rows {
        if k < rows - 1 {
            lemma_rows_stop(dst_len, dst_stride, src_len, src_stride, k, (rows - 1) as nat);
        }
    }
}

/// Copies `n` bytes of `src` from `s` to `dst` at `d`.
fn copy_bytes(dst: &mut [u8], d: usize, src: &[u8], s: usize, n: usize)
    requires
        d + n <= old(dst)@.len(),
        s + n <= src@.len(),
    ensures
        final(dst)@.len() == old(dst)@.len(),
        forall|i: int| 0 <= i < n ==> #[trigger] final(dst)@[d + i] == src@[s + i],
        forall|p: int|
            0 <= p < old(dst)@.len() && (p < d || p >= d + n) ==> #[trigger] final(dst)@[p] == old(
                dst,
            )@[p],
{
    let dst_len: usize = dst.len();
    let src_len: usize = src.len();
    let mut i: usize = 0;
    while i < n
        invariant
            i <= n,
            d + n <= dst@.len() == dst_len,
            s + n <= src@.len() == src_len,
            dst@.len() == old(dst)@.len(),
            forall|j: int| 0 <= j < i ==> #[trigger] dst@[d + j] == src@[s + j],
            forall|p: int|
                0 <= p < old(dst)@.len() && (p < d || p >= d + i) ==> #[trigger] dst@[p] == old(
                    dst,
                )@[p],
        decreases n - i,
    {
        dst[d + i] = src[s + i];
        i = i + 1;
    }
}

/// Copies the top-left rectangle of a source that may be wider into a destination whose rows are
/// `dst_stride` bytes, row by row, so that a padded source does not shear. Rows that would reach
/// past either buffer are skipped.
pub fn blit_scanout_rect(
    dst: &mut [u8],
    dst_stride: usize,
    src: &[u8],
    src_stride: usize,
    rows: usize,
)
    ensures
        blitted(
            old(dst)@,
            final(dst)@,
            dst_stride as nat,
            src@,
            src_stride as nat,
            rows as nat,
        ),
{
    let ghost before = dst@;
    if src_stride == dst_stride {
        let n: usize = if dst.len() <= src.len() {
            dst.len()
        } else {
            src.len()
        };
        copy_bytes(dst, 0, src, 0, n);
        assert forall|p: int| 0 <= p < dst@.len() implies #[trigger] dst@[p] == (src@.take(n as int)
            + before.skip(n as int))[p] by {
            if p < n {
                assert(dst@[0 + p] == src@[0 + p]);
            }
        }
        assert(dst@ =~= src@.take(n as int) + before.skip(n as int));
        return ;
    }
    let mut y: usize = 0;
    let mut s: usize = 0;
    let mut d: usize = 0;
    let mut fits: bool = true;
    while y < rows && fits
        invariant
            y <= rows,
            before == old(dst)@,
            dst@.len() == before.len(),
            fits ==> s == y * src_stride && d == y * dst_stride,
            rows_copied(
                before.len(),
                dst_stride as nat,
                src@.len(),
                src_stride as nat,
                y as nat,
            ) == y,
            !fits ==> (y == rows || !row_fits(
                before.len(),
                dst_stride as nat,
                src@.len(),
                src_stride as nat,
                y as nat,
            )),
            forall|v: int, x: int|
                0 <= v < y && 0 <= x < dst_stride ==> #[trigger] dst@[v * dst_stride + x] == src@[v
                    * src_stride + x],
            forall|p: int| y * dst_stride <= p < before.len() ==> #[trigger] dst@[p] == before[p],
        decreases
                rows - y + (if fits {
                    1int
                } else {
                    0int
                }),
    {
        if dst_stride > src.len() || s > src.len() - dst_stride || dst_stride > dst.len() || d
            > dst.len() - dst_stride {
            fits = false;
        } else {
            let ghost mid = dst@;
            copy_bytes(dst, d, src, s, dst_stride);
            proof {
                assert((y + 1) * dst_stride == y * dst_stride + dst_stride) by (nonlinear_arith);
                assert((y + 1) * src_stride == y * src_stride + src_stride) by (nonlinear_arith);
                assert forall|v: int, x: int| 0 <= v < y + 1 && 0 <= x
                    < dst_stride implies #[trigger] dst@[v * dst_stride + x] == src@[v * src_stride
                    + x] by {
                    if v == y {
                        assert(dst@[d + x] == src@[s + x]);
                    } else {
                        assert(v * dst_stride + x < y * dst_stride) by (nonlinear_arith)
                            requires
                                0 <= v < y,
                                0 <= x < dst_stride,
                        ;
                        assert(0 <= v * dst_stride) by (nonlinear_arith)
                            requires
                                0 <= v,
                        ;
                        assert(mid[v * dst_stride + x] == src@[v * src_stride + x]);
                    }
                }
            }
            y = y + 1;
            d = d + dst_stride;
            match s.checked_add(src_stride) {
                Some(next) => {
                    s = next;
                },
                None => {
                    fits = false;
                },
            }
        }
    }
    proof {
        lemma_rows_stop(
            before.len(),
            dst_stride as nat,
            src@.len(),
            src_stride as nat,
            y as nat,
            rows as nat,
        );
    }
}

/// Where a blob of `size` bytes at `offset` of a shared region lies, or `None` when it reaches past
/// the region or past the address space. The sums are checked, so an offset near the top cannot
/// wrap around into the region.
pub fn checked_blob_map_addr(base: u64, offset: u64, size: u64, shm_size: u64) -> (r: Option<u64>)
    ensures
        r == (if offset + size <= shm_size && base + offset <= u64::MAX {
            Some((base + offset) as u64)
        } else {
            None
        }),
{
    match offset.checked_add(size) {
        Some(end) => if end > shm_size {
            None
        } else {
            base.checked_add(offset)
        },
        None => None,
    }
}

/// A mapping that is granted lies wholly within the region.
pub proof fn law_mapped_blob_is_inside(base: u64, offset: u64, size: u64, shm_size: u64, addr: u64)
    requires
        offset + size <= shm_size && base + offset <= u64::MAX,
        addr == base + offset,
    ensures
        base <= addr,
        addr + size <= base + shm_size,
{
}

} // verus!
