//! Resources: what the device knows of each, and the software-2D ones' pixels.
use crate::gpu::protocol::ResourceFormat;
use crate::gpu::scanout::AssociatedScanouts;
use vstd::prelude::*;

verus! {

#[derive(Copy, Clone, PartialEq, Eq, Structural, Debug)]
pub struct VirtioGpuResource {
    pub id: u32,
    pub width: u32,
    pub height: u32,
    pub scanouts: AssociatedScanouts,
    pub format: Option<ResourceFormat>,
    /// For blob resources only.
    pub size: u64,
    /// Where in the shared region the blob is mapped.
    pub shmem_offset: Option<u64>,
    /// The renderer holds a mapping of its own.
    pub rutabaga_external_mapping: bool,
    /// The context that made the resource; 0 when it is not a blob.
    pub ctx_id: u32,
}

impl VirtioGpuResource {
    /// A resource that is neither shown nor mapped.
    pub open spec fn fresh(
        id: u32,
        width: u32,
        height: u32,
        format: Option<ResourceFormat>,
        size: u64,
    ) -> Self {
        VirtioGpuResource {
            id,
            width,
            height,
            scanouts: AssociatedScanouts(0),
            format,
            size,
            shmem_offset: None,
            rutabaga_external_mapping: false,
            ctx_id: 0,
        }
    }

    pub fn new(
        resource_id: u32,
        width: u32,
        height: u32,
        format: Option<ResourceFormat>,
        size: u64,
    ) -> (r: VirtioGpuResource)
        ensures
            r == Self::fresh(resource_id, width, height, format, size),
    {
        VirtioGpuResource {
            id: resource_id,
            width,
            height,
            scanouts: AssociatedScanouts(0),
            format,
            size,
            shmem_offset: None,
            rutabaga_external_mapping: false,
            ctx_id: 0,
        }
    }
}

/// A resource whose pixels live in host memory, without a renderer.
pub struct Sw2dResource {
    pub host: Vec<u8>,
    /// The guest memory that backs it: addresses and lengths.
    pub backing: Vec<(u64, usize)>,
}

pub struct Sw2dView {
    pub host: Seq<u8>,
    pub backing: Seq<(u64, usize)>,
}

impl View for Sw2dResource {
    type V = Sw2dView;

    open spec fn view(&self) -> Sw2dView {
        Sw2dView { host: self.host@, backing: self.backing@ }
    }
}

/// The first `n` ranges, each cut to what of `room` the ranges before it left.
pub open spec fn ranges_within(ranges: Seq<(u64, usize)>, room: nat, n: nat) -> Seq<(u64, usize)>
    decreases n,
{
    if n == 0 {
        Seq::empty()
    } else {
        let before = ranges_within(ranges, room, (n - 1) as nat);
        let left = room - total_len(before);
        if left <= 0 {
            before
        } else if ranges[n - 1].1 <= left {
            before.push(ranges[n - 1])
        } else {
            before.push((ranges[n - 1].0, left as usize))
        }
    }
}

/// Cut ranges are no longer than the room there is.
pub proof fn lemma_within_room(ranges: Seq<(u64, usize)>, room: nat, n: nat)
    requires
        n <= ranges.len(),
    ensures
        total_len(ranges_within(ranges, room, n)) <= room,
    decreases n,
{
    if n > 0 {
        lemma_within_room(ranges, room, (n - 1) as nat);
        let before = ranges_within(ranges, room, (n - 1) as nat);
        let left = room - total_len(before);
        if left > 0 {
            let last = if ranges[n - 1].1 <= left {
                ranges[n - 1]
            } else {
                (ranges[n - 1].0, left as usize)
            };
            assert(before.push(last).drop_last() =~= before);
        }
    }
}

pub open spec fn total_len(ranges: Seq<(u64, usize)>) -> nat
    decreases ranges.len(),
{
    if ranges.len() == 0 {
        0
    } else {
        total_len(ranges.drop_last()) + ranges.last().1 as nat
    }
}

impl Sw2dView {
    /// The guest memory to read to fill the host buffer.
    pub open spec fn wanted(self) -> Seq<(u64, usize)> {
        ranges_within(self.backing, self.host.len(), self.backing.len())
    }

    /// The host buffer overwritten from its start, as far as it goes.
    pub open spec fn filled(self, bytes: Seq<u8>) -> Self {
        Sw2dView {
            host: Seq::new(
                self.host.len(),
                |i: int|
                    if i < bytes.len() {
                        bytes[i]
                    } else {
                        self.host[i]
                    },
            ),
            ..self
        }
    }
}

impl Sw2dResource {
    /// The guest memory to read to fill the host buffer: the backing, cut where the buffer is
    /// full.
    pub fn wanted(&self) -> (r: Vec<(u64, usize)>)
        ensures
            r@ == self@.wanted(),
            total_len(r@) <= self@.host.len(),
    {
        let room: usize = self.host.len();
        let mut r: Vec<(u64, usize)> = Vec::new();
        let mut off: usize = 0;
        let mut i: usize = 0;
        while i < self.backing.len()
            invariant
                i <= self.backing@.len(),
                room == self.host@.len(),
                r@ == ranges_within(self.backing@, room as nat, i as nat),
                off == total_len(r@),
                off <= room,
            decreases self.backing@.len() - i,
        {
            let ghost before = r@;
            if off < room {
                let addr: u64 = self.backing[i].0;
                let len: usize = self.backing[i].1;
                let n: usize = if len <= room - off {
                    len
                } else {
                    room - off
                };
                r.push((addr, n));
                assert(r@.drop_last() =~= before);
                off = off + n;
            }
            i = i + 1;
        }
        r
    }

    /// Gathers guest memory into the host buffer: the bytes of the wanted ranges, one after
    /// another. The guest holds the whole picture in its backing, so this serves any rectangle.
    pub fn copy_from_backing(&mut self, bytes: &[u8])
        ensures
            final(self)@ == old(self)@.filled(bytes@),
    {
        let room: usize = self.host.len();
        let n: usize = if bytes.len() <= room {
            bytes.len()
        } else {
            room
        };
        let mut i: usize = 0;
        while i < n
            invariant
                i <= n <= bytes@.len(),
                n <= room == self.host@.len() == old(self).host@.len(),
                self.backing@ == old(self).backing@,
                forall|k: int|
                    0 <= k < room ==> #[trigger] self.host@[k] == (if k < i {
                        bytes@[k]
                    } else {
                        old(self).host@[k]
                    }),
            decreases n - i,
        {
            self.host.set(i, bytes[i]);
            i = i + 1;
        }
        assert(self.host@ =~= old(self)@.filled(bytes@).host);
    }
}

} // verus!
