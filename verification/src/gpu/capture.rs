//! Taking a snapshot: the journal, and what only the renderer has of each context and blob.
use crate::codec::to_vec;
use crate::display::DisplayInfo;
use crate::gpu::scanout::VirtioGpuScanout;
use crate::gpu::virtio_gpu::{copy_ranges, GpuView, VirtioGpu};
use crate::gpu_snapshot;
use crate::gpu_snapshot::{
    CursorSnapshot, GpuJournalEntry, GpuJournalEntryView, GpuJournalOp, GpuJournalOpView,
    GpuSnapshotPayload, GpuSnapshotPayloadView, ScanoutFrame, ScanoutFrameView,
};
use crate::snapshot_laws;
use vstd::prelude::*;

verus! {

/// The contexts that the journal creates, in order.
pub open spec fn contexts_of(ops: Seq<GpuJournalEntryView>) -> Seq<u32>
    decreases ops.len(),
{
    if ops.len() == 0 {
        Seq::empty()
    } else {
        let before = contexts_of(ops.drop_last());
        match ops.last().op {
            GpuJournalOpView::CtxCreate { ctx_id, .. } => before.push(ctx_id),
            _ => before,
        }
    }
}

/// The blobs that the journal maps, in order.
pub open spec fn mapped_of(ops: Seq<GpuJournalEntryView>) -> Seq<u32>
    decreases ops.len(),
{
    if ops.len() == 0 {
        Seq::empty()
    } else {
        let before = mapped_of(ops.drop_last());
        match ops.last().op {
            GpuJournalOpView::MapBlob { resource_id, .. } => before.push(resource_id),
            _ => before,
        }
    }
}

/// The scanouts that show something, in order.
pub open spec fn shown_of(scanouts: Seq<Option<VirtioGpuScanout>>) -> Seq<u32>
    decreases scanouts.len(),
{
    if scanouts.len() == 0 {
        Seq::empty()
    } else {
        let before = shown_of(scanouts.drop_last());
        if scanouts.last() is Some {
            before.push((scanouts.len() - 1) as u32)
        } else {
            before
        }
    }
}

/// A device memory of a context: its id, and its bytes where they could be read.
pub type MemoryRead = (u64, Option<Vec<u8>>);

pub open spec fn reads_view(v: Seq<MemoryRead>) -> Seq<(u64, Option<Seq<u8>>)> {
    v.map_values(
        |m: MemoryRead|
            (
                m.0,
                match m.1 {
                    Some(b) => Some(b@),
                    None => None::<Seq<u8>>,
                },
            ),
    )
}

/// The memories of `ctx_id` that could be read, in order.
pub open spec fn readable_memories(ctx_id: u32, reads: Seq<(u64, Option<Seq<u8>>)>) -> Seq<
    (u32, u64, Seq<u8>),
>
    decreases reads.len(),
{
    if reads.len() == 0 {
        Seq::empty()
    } else {
        let before = readable_memories(ctx_id, reads.drop_last());
        match reads.last().1 {
            Some(b) => before.push((ctx_id, reads.last().0, b)),
            None => before,
        }
    }
}

/// The bytes that stand for an optional vector.
pub open spec fn bytes_view(b: Option<Vec<u8>>) -> Option<Seq<u8>> {
    match b {
        Some(b) => Some(b@),
        None => None,
    }
}

impl GpuSnapshotPayloadView {
    /// What the renderer gave of a context. One without a wire journal has nothing to restore;
    /// what could not be read of another is left out.
    pub open spec fn with_context(
        self,
        ctx_id: u32,
        journal: Option<Seq<u8>>,
        sync: Option<Seq<u8>>,
        memories: Option<Seq<(u64, Option<Seq<u8>>)>>,
        classic: Option<Seq<u8>>,
    ) -> Self {
        match journal {
            None => self,
            Some(j) => GpuSnapshotPayloadView {
                vkr_journals: self.vkr_journals.push((ctx_id, j)),
                sync_states: match sync {
                    Some(s) => self.sync_states.push((ctx_id, s)),
                    None => self.sync_states,
                },
                memory_contents: match memories {
                    Some(m) => self.memory_contents + readable_memories(ctx_id, m),
                    None => self.memory_contents,
                },
                classic_contents: match classic {
                    Some(c) => self.classic_contents.push((ctx_id, c)),
                    None => self.classic_contents,
                },
                ..self
            },
        }
    }

    /// A mapped blob's bytes, where they could be read.
    pub open spec fn with_blob(self, resource_id: u32, bytes: Option<Seq<u8>>) -> Self {
        match bytes {
            Some(b) => GpuSnapshotPayloadView {
                blob_contents: self.blob_contents.push((resource_id, b)),
                ..self
            },
            None => self,
        }
    }

    /// The frame that a scanout showed, where it could be read.
    pub open spec fn with_frame(self, frame: Option<ScanoutFrameView>) -> Self {
        match frame {
            Some(f) => GpuSnapshotPayloadView {
                scanout_frames: self.scanout_frames.push(f),
                ..self
            },
            None => self,
        }
    }
}

fn copy_op(op: &GpuJournalOp) -> (r: GpuJournalOp)
    ensures
        r@ == op@,
{
    match op {
        GpuJournalOp::CtxCreate { ctx_id, context_init, name } => GpuJournalOp::CtxCreate {
            ctx_id: *ctx_id,
            context_init: *context_init,
            name: match name {
                Some(n) => Some(n.as_str().to_owned()),
                None => None,
            },
        },
        GpuJournalOp::CtxAttachResource {
            ctx_id,
            resource_id,
            detached,
        } => GpuJournalOp::CtxAttachResource {
            ctx_id: *ctx_id,
            resource_id: *resource_id,
            detached: *detached,
        },
        GpuJournalOp::CreateBlob {
            ctx_id,
            resource_id,
            blob_mem,
            blob_flags,
            blob_id,
            size,
            backing,
        } => GpuJournalOp::CreateBlob {
            ctx_id: *ctx_id,
            resource_id: *resource_id,
            blob_mem: *blob_mem,
            blob_flags: *blob_flags,
            blob_id: *blob_id,
            size: *size,
            backing: copy_ranges(backing),
        },
        GpuJournalOp::MapBlob { resource_id, offset } => GpuJournalOp::MapBlob {
            resource_id: *resource_id,
            offset: *offset,
        },
        GpuJournalOp::SetScanoutBlob {
            scanout_id,
            resource_id,
            width,
            height,
            format,
        } => GpuJournalOp::SetScanoutBlob {
            scanout_id: *scanout_id,
            resource_id: *resource_id,
            width: *width,
            height: *height,
            format: *format,
        },
        GpuJournalOp::ResourceCreate3d {
            resource_id,
            target,
            format,
            bind,
            width,
            height,
            depth,
            array_size,
            last_level,
            nr_samples,
            flags,
        } => GpuJournalOp::ResourceCreate3d {
            resource_id: *resource_id,
            target: *target,
            format: *format,
            bind: *bind,
            width: *width,
            height: *height,
            depth: *depth,
            array_size: *array_size,
            last_level: *last_level,
            nr_samples: *nr_samples,
            flags: *flags,
        },
        GpuJournalOp::ResourceCreate2d {
            resource_id,
            format,
            width,
            height,
        } => GpuJournalOp::ResourceCreate2d {
            resource_id: *resource_id,
            format: *format,
            width: *width,
            height: *height,
        },
        GpuJournalOp::AttachBacking { resource_id, backing } => GpuJournalOp::AttachBacking {
            resource_id: *resource_id,
            backing: copy_ranges(backing),
        },
        GpuJournalOp::SetScanout {
            scanout_id,
            resource_id,
            width,
            height,
        } => GpuJournalOp::SetScanout {
            scanout_id: *scanout_id,
            resource_id: *resource_id,
            width: *width,
            height: *height,
        },
    }
}

fn copy_cursor(c: &CursorSnapshot) -> (r: CursorSnapshot)
    ensures
        r@ == c@,
{
    CursorSnapshot {
        scanout_id: c.scanout_id,
        width: c.width,
        height: c.height,
        hot_x: c.hot_x,
        hot_y: c.hot_y,
        format: c.format,
        x: c.x,
        y: c.y,
        pixels: to_vec(c.pixels.as_slice()),
    }
}

fn copy_displays(displays: &[DisplayInfo]) -> (r: Vec<DisplayInfo>)
    ensures
        gpu_snapshot::displays_view(r@) == gpu_snapshot::displays_view(displays@),
{
    let ghost all = gpu_snapshot::displays_view(displays@);
    let mut r: Vec<DisplayInfo> = Vec::new();
    let mut i: usize = 0;
    assert(gpu_snapshot::displays_view(r@) =~= all.take(0));
    while i < displays.len()
        invariant
            i <= displays@.len(),
            all == gpu_snapshot::displays_view(displays@),
            gpu_snapshot::displays_view(r@) == all.take(i as int),
        decreases displays@.len() - i,
    {
        let ghost before = r@;
        r.push(displays[i].copied());
        i = i + 1;
        assert(gpu_snapshot::displays_view(r@) =~= gpu_snapshot::displays_view(before).push(
            r@.last()@,
        ));
        assert(gpu_snapshot::displays_view(r@) =~= all.take(i as int));
    }
    assert(all.take(all.len() as int) =~= all);
    r
}

/// A snapshot that is being taken: what is in it so far, and what the renderer is still to be
/// asked for.
pub struct Capture {
    pub payload: GpuSnapshotPayload,
    /// The contexts to ask for, in order.
    pub contexts: Vec<u32>,
    /// The mapped blobs to read, in order.
    pub mapped: Vec<u32>,
    /// The scanouts whose frames are to be read, in order.
    pub scanouts: Vec<u32>,
}

impl VirtioGpu {
    /// Starts a snapshot with the journal, the cursor and the displays. There is nothing to
    /// snapshot without a renderer or while the journal is empty.
    pub fn snapshot_gpu_payload(&self) -> (r: Option<Capture>)
        requires
            self@.wf(),
        ensures
            match r {
                Some(c) => {
                    &&& self@.renderer && self@.journal.entries.len() > 0
                    &&& c.payload@ == (GpuSnapshotPayloadView {
                        ops: self@.journal.entries,
                        vkr_journals: Seq::empty(),
                        blob_contents: Seq::empty(),
                        memory_contents: Seq::empty(),
                        sync_states: Seq::empty(),
                        cursor: self@.cursor,
                        classic_contents: Seq::empty(),
                        displays: self@.displays,
                        scanout_frames: Seq::empty(),
                    })
                    &&& c.contexts@ == contexts_of(self@.journal.entries)
                    &&& c.mapped@ == mapped_of(self@.journal.entries)
                    &&& c.scanouts@ == shown_of(self@.scanouts)
                },
                None => !self@.renderer || self@.journal.entries.len() == 0,
            },
    {
        let entries: &[GpuJournalEntry] = self.journal().entries();
        let ghost all = self@.journal.entries;
        assert(all.len() == entries@.len());
        if !self.has_renderer() || entries.len() == 0 {
            return None;
        }
        let mut ops: Vec<GpuJournalEntry> = Vec::new();
        let mut contexts: Vec<u32> = Vec::new();
        let mut mapped: Vec<u32> = Vec::new();
        let mut i: usize = 0;
        assert(all.take(0) =~= Seq::empty());
        assert(gpu_snapshot::ops_view(ops@) =~= all.take(0));
        while i < entries.len()
            invariant
                i <= entries@.len(),
                all == gpu_snapshot::ops_view(entries@),
                gpu_snapshot::ops_view(ops@) == all.take(i as int),
                contexts@ == contexts_of(all.take(i as int)),
                mapped@ == mapped_of(all.take(i as int)),
            decreases entries@.len() - i,
        {
            let e: &GpuJournalEntry = &entries[i];
            proof {
                assert(all.take(i + 1).drop_last() =~= all.take(i as int));
                assert(all.take(i + 1).last() == e@);
            }
            match &e.op {
                GpuJournalOp::CtxCreate { ctx_id, .. } => {
                    contexts.push(*ctx_id);
                },
                GpuJournalOp::MapBlob { resource_id, .. } => {
                    mapped.push(*resource_id);
                },
                _ => {},
            }
            ops.push(GpuJournalEntry { seq: e.seq, vkr_seq: e.vkr_seq, op: copy_op(&e.op) });
            i = i + 1;
            assert(gpu_snapshot::ops_view(ops@) =~= all.take(i as int));
        }
        assert(all.take(all.len() as int) =~= all);
        let mut payload: GpuSnapshotPayload = GpuSnapshotPayload::default();
        payload.ops = ops;
        payload.cursor = match self.cursor() {
            Some(c) => Some(copy_cursor(c)),
            None => None,
        };
        payload.displays = copy_displays(self.displays());
        proof {
            let v = payload@;
            assert(v.vkr_journals =~= Seq::empty());
            assert(v.blob_contents =~= Seq::empty());
            assert(v.memory_contents =~= Seq::empty());
            assert(v.sync_states =~= Seq::empty());
            assert(v.classic_contents =~= Seq::empty());
            assert(v.displays =~= self@.displays);
            assert(v.scanout_frames =~= Seq::empty());
        }
        let scanouts: Vec<u32> = self.shown_scanouts();
        Some(Capture { payload, contexts, mapped, scanouts })
    }
}

impl Capture {
    /// Adds what the renderer gave of a context: its wire journal, its sync state, its device
    /// memories and what only the GL renderer holds of its resources. A context without a wire journal is not one of the renderer's that can be
    /// restored, and nothing of it is taken.
    pub fn add_context(
        &mut self,
        ctx_id: u32,
        journal: Option<Vec<u8>>,
        sync: Option<Vec<u8>>,
        memories: Option<Vec<MemoryRead>>,
        classic: Option<Vec<u8>>,
    )
        ensures
            final(self).payload@ == old(self).payload@.with_context(
                ctx_id,
                bytes_view(journal),
                bytes_view(sync),
                match memories {
                    Some(m) => Some(reads_view(m@)),
                    None => None,
                },
                bytes_view(classic),
            ),
            final(self).contexts == old(self).contexts,
            final(self).mapped == old(self).mapped,
            final(self).scanouts == old(self).scanouts,
    {
        let journal: Vec<u8> = match journal {
            Some(j) => j,
            None => {
                return;
            },
        };
        let ghost jv = journal@;
        self.payload.vkr_journals.push((ctx_id, journal));
        assert(self.payload@.vkr_journals =~= old(self).payload@.vkr_journals.push((ctx_id, jv)));
        if let Some(s) = sync {
            let ghost sv = s@;
            self.payload.sync_states.push((ctx_id, s));
            assert(self.payload@.sync_states =~= old(self).payload@.sync_states.push((ctx_id, sv)));
        }
        if let Some(c) = classic {
            let ghost cv = c@;
            self.payload.classic_contents.push((ctx_id, c));
            assert(self.payload@.classic_contents =~= old(self).payload@.classic_contents.push(
                (ctx_id, cv),
            ));
        }
        let ghost mid = self.payload@;
        if let Some(m) = memories {
            let ghost all = reads_view(m@);
            let ghost start = self.payload@.memory_contents;
            assert(all.take(0) =~= Seq::empty());
            assert(start =~= start + readable_memories(ctx_id, all.take(0)));
            for e in it: m
                invariant
                    all == reads_view(it.seq()),
                    start == old(self).payload@.memory_contents,
                    self.contexts == old(self).contexts,
                    self.mapped == old(self).mapped,
                    self.scanouts == old(self).scanouts,
                    self.payload@ == (GpuSnapshotPayloadView {
                        memory_contents: start + readable_memories(
                            ctx_id,
                            all.take(it.index() as int),
                        ),
                        ..mid
                    }),
            {
                let ghost before = self.payload@.memory_contents;
                proof {
                    let k = it.index() as int;
                    assert(all.take(k + 1).drop_last() =~= all.take(k));
                    assert(all.take(k + 1).last() == all[k]);
                }
                if let Some(b) = e.1 {
                    let ghost bv = b@;
                    self.payload.memory_contents.push((ctx_id, e.0, b));
                    assert(self.payload@.memory_contents =~= before.push((ctx_id, e.0, bv)));
                }
                assert(self.payload@.memory_contents =~= start + readable_memories(
                    ctx_id,
                    all.take(it.index() + 1),
                ));
            }
            assert(all.take(all.len() as int) =~= all);
        }
    }

    /// Adds a mapped blob's bytes, where they could be read.
    pub fn add_blob(&mut self, resource_id: u32, bytes: Option<Vec<u8>>)
        ensures
            final(self).payload@ == old(self).payload@.with_blob(resource_id, bytes_view(bytes)),
            final(self).contexts == old(self).contexts,
            final(self).mapped == old(self).mapped,
            final(self).scanouts == old(self).scanouts,
    {
        if let Some(b) = bytes {
            let ghost bv = b@;
            self.payload.blob_contents.push((resource_id, b));
            assert(self.payload@.blob_contents =~= old(self).payload@.blob_contents.push(
                (resource_id, bv),
            ));
        }
    }

    /// Adds the frame that a scanout showed, where it could be read.
    pub fn add_frame(&mut self, frame: Option<ScanoutFrame>)
        ensures
            final(self).payload@ == old(self).payload@.with_frame(
                match frame {
                    Some(f) => Some(f@),
                    None => None,
                },
            ),
            final(self).contexts == old(self).contexts,
            final(self).mapped == old(self).mapped,
            final(self).scanouts == old(self).scanouts,
    {
        if let Some(f) = frame {
            let ghost fv = f@;
            self.payload.scanout_frames.push(f);
            assert(self.payload@.scanout_frames =~= old(self).payload@.scanout_frames.push(fv));
        }
    }
}

/// What the guest was told of its displays comes back: however a snapshot is filled after it was
/// started, and through its bytes, a device that takes over the displays in it has those of the
/// device that it was taken of.
pub proof fn law_displays_come_back(
    taken_of: GpuView,
    p: GpuSnapshotPayloadView,
    rest: Seq<u8>,
    back: GpuSnapshotPayloadView,
    id: u32,
    journal: Option<Seq<u8>>,
    sync: Option<Seq<u8>>,
    memories: Option<Seq<(u64, Option<Seq<u8>>)>>,
    content: Option<Seq<u8>>,
    frame: Option<ScanoutFrameView>,
)
    requires
        p.displays == taken_of.displays,
        snapshot_laws::payload_fits(p),
        gpu_snapshot::dec_payload(gpu_snapshot::enc_payload(p) + rest) == Some((back, rest)),
    ensures
        p.with_context(id, journal, sync, memories, content).displays == taken_of.displays,
        p.with_blob(id, content).displays == taken_of.displays,
        p.with_frame(frame).displays == taken_of.displays,
        back.displays == taken_of.displays,
{
    snapshot_laws::law_payload_round_trips(p, rest);
}

} // verus!
