//! The GPU section of the VM snapshot file, as bytes: the journal's ops, each context's wire
//! journal, the contents of mapped blobs and device memory, and the display state, written at
//! snapshot and read back at restore.
//!
//! The reader takes bytes a file hands back after a crash, a partial write or a version skew: it
//! reads them or refuses them.
use crate::codec;
use crate::codec::{
    put_blob, put_bytes, put_u32, put_u64, put_u8, Cursor, Decoded,
};
use crate::display;
use crate::display::{get_display, put_display, DisplayInfo, DisplayInfoView};
use vstd::prelude::*;

verus! {

/// One resource-lifecycle command that a replay has to issue again.
#[derive(Debug)]
pub enum GpuJournalOp {
    CtxCreate { ctx_id: u32, context_init: u32, name: Option<String> },
    /// One per context and resource, kept at the first attach. A detach only marks it: what the
    /// context made while the resource was attached outlives the detach, and its replay needs the
    /// resource attached again. Restore re-attaches, replays, and then applies the detach.
    CtxAttachResource { ctx_id: u32, resource_id: u32, detached: bool },
    CreateBlob {
        ctx_id: u32,
        resource_id: u32,
        blob_mem: u32,
        blob_flags: u32,
        blob_id: u64,
        size: u64,
        backing: Vec<(u64, usize)>,
    },
    /// Latest wins per resource; the guest window is the shared region's base plus `offset`.
    MapBlob { resource_id: u32, offset: u64 },
    /// Latest wins per scanout.
    SetScanoutBlob { scanout_id: u32, resource_id: u32, width: u32, height: u32, format: u32 },
    /// A classic 3D resource create. Replay re-creates it before the context's wire journal,
    /// which may bind it, is fed.
    ResourceCreate3d {
        resource_id: u32,
        target: u32,
        format: u32,
        bind: u32,
        width: u32,
        height: u32,
        depth: u32,
        array_size: u32,
        last_level: u32,
        nr_samples: u32,
        flags: u32,
    },
    /// A software-2D resource create.
    ResourceCreate2d { resource_id: u32, format: u32, width: u32, height: u32 },
    /// Latest wins per resource: the guest memory that backs it.
    AttachBacking { resource_id: u32, backing: Vec<(u64, usize)> },
    /// Latest wins per scanout: the scanout binding that is not to a blob.
    SetScanout { scanout_id: u32, resource_id: u32, width: u32, height: u32 },
}

/// A journaled op with its place in the journal.
pub struct GpuJournalEntry {
    pub seq: u64,
    /// The owning context's wire-journal watermark when this op executed. Replay feeds every wire
    /// entry at or below it before executing this op. 0: no wire dependency.
    pub vkr_seq: u64,
    pub op: GpuJournalOp,
}

pub const PAYLOAD_MAGIC: u32 = 0x5550_474c;

pub const PAYLOAD_VERSION: u32 = 8;

/// One scanout's presented pixels, tightly packed at a stride of four bytes a pixel.
#[derive(PartialEq, Eq, Debug)]
pub struct ScanoutFrame {
    pub scanout_id: u32,
    pub width: u32,
    pub height: u32,
    pub pixels: Vec<u8>,
}

/// The cursor overlay as last handed to the display backend, pixels included.
pub struct CursorSnapshot {
    pub scanout_id: u32,
    pub width: u32,
    pub height: u32,
    pub hot_x: u32,
    pub hot_y: u32,
    pub format: u32,
    pub x: u32,
    pub y: u32,
    pub pixels: Vec<u8>,
}

/// Everything a restore needs to re-create the GPU.
pub struct GpuSnapshotPayload {
    pub ops: Vec<GpuJournalEntry>,
    /// Per journaled context: its id and the renderer's serialized journal.
    pub vkr_journals: Vec<(u32, Vec<u8>)>,
    /// Per guest-mapped blob: the resource id and its bytes.
    pub blob_contents: Vec<(u32, Vec<u8>)>,
    /// Per capturable device memory: the context id, the object id and its bytes.
    pub memory_contents: Vec<(u32, u64, Vec<u8>)>,
    /// Per context: its opaque sync state.
    pub sync_states: Vec<(u32, Vec<u8>)>,
    /// The cursor overlay; `None` when it was hidden or never set.
    pub cursor: Option<CursorSnapshot>,
    /// Per classic context: its opaque resource contents.
    pub classic_contents: Vec<(u32, Vec<u8>)>,
    /// The display configuration of each scanout.
    pub displays: Vec<DisplayInfo>,
    /// The frame on each enabled scanout.
    pub scanout_frames: Vec<ScanoutFrame>,
}

pub enum GpuJournalOpView {
    CtxCreate { ctx_id: u32, context_init: u32, name: Option<Seq<char>> },
    CtxAttachResource { ctx_id: u32, resource_id: u32, detached: bool },
    CreateBlob {
        ctx_id: u32,
        resource_id: u32,
        blob_mem: u32,
        blob_flags: u32,
        blob_id: u64,
        size: u64,
        backing: Seq<(u64, usize)>,
    },
    MapBlob { resource_id: u32, offset: u64 },
    SetScanoutBlob { scanout_id: u32, resource_id: u32, width: u32, height: u32, format: u32 },
    ResourceCreate3d {
        resource_id: u32,
        target: u32,
        format: u32,
        bind: u32,
        width: u32,
        height: u32,
        depth: u32,
        array_size: u32,
        last_level: u32,
        nr_samples: u32,
        flags: u32,
    },
    ResourceCreate2d { resource_id: u32, format: u32, width: u32, height: u32 },
    AttachBacking { resource_id: u32, backing: Seq<(u64, usize)> },
    SetScanout { scanout_id: u32, resource_id: u32, width: u32, height: u32 },
}

pub struct GpuJournalEntryView {
    pub seq: u64,
    pub vkr_seq: u64,
    pub op: GpuJournalOpView,
}

pub struct ScanoutFrameView {
    pub scanout_id: u32,
    pub width: u32,
    pub height: u32,
    pub pixels: Seq<u8>,
}

pub struct CursorSnapshotView {
    pub scanout_id: u32,
    pub width: u32,
    pub height: u32,
    pub hot_x: u32,
    pub hot_y: u32,
    pub format: u32,
    pub x: u32,
    pub y: u32,
    pub pixels: Seq<u8>,
}

pub struct GpuSnapshotPayloadView {
    pub ops: Seq<GpuJournalEntryView>,
    pub vkr_journals: Seq<(u32, Seq<u8>)>,
    pub blob_contents: Seq<(u32, Seq<u8>)>,
    pub memory_contents: Seq<(u32, u64, Seq<u8>)>,
    pub sync_states: Seq<(u32, Seq<u8>)>,
    pub cursor: Option<CursorSnapshotView>,
    pub classic_contents: Seq<(u32, Seq<u8>)>,
    pub displays: Seq<DisplayInfoView>,
    pub scanout_frames: Seq<ScanoutFrameView>,
}

impl View for GpuJournalOp {
    type V = GpuJournalOpView;

    open spec fn view(&self) -> GpuJournalOpView {
        match *self {
            GpuJournalOp::CtxCreate { ctx_id, context_init, name } => GpuJournalOpView::CtxCreate {
                ctx_id,
                context_init,
                name: match name {
                    Some(n) => Some(n@),
                    None => None,
                },
            },
            GpuJournalOp::CtxAttachResource {
                ctx_id,
                resource_id,
                detached,
            } => GpuJournalOpView::CtxAttachResource { ctx_id, resource_id, detached },
            GpuJournalOp::CreateBlob {
                ctx_id,
                resource_id,
                blob_mem,
                blob_flags,
                blob_id,
                size,
                backing,
            } => GpuJournalOpView::CreateBlob {
                ctx_id,
                resource_id,
                blob_mem,
                blob_flags,
                blob_id,
                size,
                backing: backing@,
            },
            GpuJournalOp::MapBlob { resource_id, offset } => GpuJournalOpView::MapBlob {
                resource_id,
                offset,
            },
            GpuJournalOp::SetScanoutBlob {
                scanout_id,
                resource_id,
                width,
                height,
                format,
            } => GpuJournalOpView::SetScanoutBlob {
                scanout_id,
                resource_id,
                width,
                height,
                format,
            },
            GpuJournalOp::ResourceCreate3d {
                resource_id,
                target,
                format,
                bind,
                width,
                height,
                depth,
                array_size,
                last_level,
                nr_samples,
                flags,
            } => GpuJournalOpView::ResourceCreate3d {
                resource_id,
                target,
                format,
                bind,
                width,
                height,
                depth,
                array_size,
                last_level,
                nr_samples,
                flags,
            },
            GpuJournalOp::ResourceCreate2d {
                resource_id,
                format,
                width,
                height,
            } => GpuJournalOpView::ResourceCreate2d { resource_id, format, width, height },
            GpuJournalOp::AttachBacking { resource_id, backing } => GpuJournalOpView::AttachBacking {
                resource_id,
                backing: backing@,
            },
            GpuJournalOp::SetScanout {
                scanout_id,
                resource_id,
                width,
                height,
            } => GpuJournalOpView::SetScanout { scanout_id, resource_id, width, height },
        }
    }
}

impl View for GpuJournalEntry {
    type V = GpuJournalEntryView;

    open spec fn view(&self) -> GpuJournalEntryView {
        GpuJournalEntryView { seq: self.seq, vkr_seq: self.vkr_seq, op: self.op@ }
    }
}

impl View for ScanoutFrame {
    type V = ScanoutFrameView;

    open spec fn view(&self) -> ScanoutFrameView {
        ScanoutFrameView {
            scanout_id: self.scanout_id,
            width: self.width,
            height: self.height,
            pixels: self.pixels@,
        }
    }
}

impl View for CursorSnapshot {
    type V = CursorSnapshotView;

    open spec fn view(&self) -> CursorSnapshotView {
        CursorSnapshotView {
            scanout_id: self.scanout_id,
            width: self.width,
            height: self.height,
            hot_x: self.hot_x,
            hot_y: self.hot_y,
            format: self.format,
            x: self.x,
            y: self.y,
            pixels: self.pixels@,
        }
    }
}

/// The views of tagged byte vectors.
pub open spec fn tagged_view(v: Seq<(u32, Vec<u8>)>) -> Seq<(u32, Seq<u8>)> {
    v.map_values(|e: (u32, Vec<u8>)| (e.0, e.1@))
}

/// The views of byte vectors with two tags.
pub open spec fn memory_view(v: Seq<(u32, u64, Vec<u8>)>) -> Seq<(u32, u64, Seq<u8>)> {
    v.map_values(|e: (u32, u64, Vec<u8>)| (e.0, e.1, e.2@))
}

/// The views of journal entries.
pub open spec fn ops_view(v: Seq<GpuJournalEntry>) -> Seq<GpuJournalEntryView> {
    v.map_values(|e: GpuJournalEntry| e@)
}

pub open spec fn displays_view(v: Seq<DisplayInfo>) -> Seq<DisplayInfoView> {
    v.map_values(|e: DisplayInfo| e@)
}

pub open spec fn frames_view(v: Seq<ScanoutFrame>) -> Seq<ScanoutFrameView> {
    v.map_values(|e: ScanoutFrame| e@)
}

impl View for GpuSnapshotPayload {
    type V = GpuSnapshotPayloadView;

    open spec fn view(&self) -> GpuSnapshotPayloadView {
        GpuSnapshotPayloadView {
            ops: ops_view(self.ops@),
            vkr_journals: tagged_view(self.vkr_journals@),
            blob_contents: tagged_view(self.blob_contents@),
            memory_contents: memory_view(self.memory_contents@),
            sync_states: tagged_view(self.sync_states@),
            cursor: match self.cursor {
                Some(c) => Some(c@),
                None => None,
            },
            classic_contents: tagged_view(self.classic_contents@),
            displays: displays_view(self.displays@),
            scanout_frames: frames_view(self.scanout_frames@),
        }
    }
}

/// 32-bit fields, one after another.
pub open spec fn enc_u32s(v: Seq<u32>) -> Seq<u8> {
    codec::enc_list(v, |x: u32| codec::enc_u32(x))
}

pub open spec fn dec_u32s(s: Seq<u8>, n: nat) -> Decoded<Seq<u32>> {
    codec::dec_list(s, n, |s: Seq<u8>| codec::dec_u32(s))
}

/// A guest memory range: its address and its length.
pub open spec fn enc_range(r: (u64, usize)) -> Seq<u8> {
    codec::enc_u64(r.0) + codec::enc_u64(r.1 as u64)
}

pub open spec fn dec_range(s: Seq<u8>) -> Decoded<(u64, usize)> {
    match codec::dec_u64(s) {
        Some((addr, s)) => match codec::dec_u64(s) {
            Some((len, s)) => Some(((addr, len as usize), s)),
            None => None,
        },
        None => None,
    }
}

/// A count of ranges and the ranges.
pub open spec fn enc_backing(b: Seq<(u64, usize)>) -> Seq<u8> {
    codec::enc_u32(b.len() as u32) + codec::enc_list(b, |r: (u64, usize)| enc_range(r))
}

pub open spec fn dec_backing(s: Seq<u8>) -> Decoded<Seq<(u64, usize)>> {
    match codec::dec_count(s, 16) {
        Some((n, s)) => codec::dec_list(s, n as nat, |s: Seq<u8>| dec_range(s)),
        None => None,
    }
}

/// A name's UTF-8 bytes behind their length; no name is the empty name.
pub open spec fn enc_name(name: Option<Seq<char>>) -> Seq<u8> {
    let bytes = vstd::utf8::encode_utf8(
        match name {
            Some(n) => n,
            None => Seq::empty(),
        },
    );
    codec::enc_u32(bytes.len() as u32) + bytes
}

pub open spec fn dec_name(s: Seq<u8>) -> Decoded<Option<Seq<char>>> {
    match codec::dec_u32(s) {
        Some((n, s)) => match codec::dec_bytes(s, n as nat) {
            Some((b, s)) => if vstd::utf8::valid_utf8(b) {
                let name = vstd::utf8::decode_utf8(b);
                Some(
                    (
                        if name.len() == 0 {
                            None
                        } else {
                            Some(name)
                        },
                        s,
                    ),
                )
            } else {
                None
            },
            None => None,
        },
        None => None,
    }
}

/// An op: its tag and its fields. A detached attach has a tag of its own.
pub open spec fn enc_op(op: GpuJournalOpView) -> Seq<u8> {
    match op {
        GpuJournalOpView::CtxCreate { ctx_id, context_init, name } => codec::enc_u8(1) + (enc_u32s(
            seq![ctx_id, context_init],
        ) + enc_name(name)),
        GpuJournalOpView::CtxAttachResource { ctx_id, resource_id, detached } => codec::enc_u8(
            if detached {
                10
            } else {
                2
            },
        ) + enc_u32s(seq![ctx_id, resource_id]),
        GpuJournalOpView::CreateBlob {
            ctx_id,
            resource_id,
            blob_mem,
            blob_flags,
            blob_id,
            size,
            backing,
        } => codec::enc_u8(3) + (enc_u32s(seq![ctx_id, resource_id, blob_mem, blob_flags]) + (
        codec::enc_u64(blob_id) + (codec::enc_u64(size) + enc_backing(backing)))),
        GpuJournalOpView::MapBlob { resource_id, offset } => codec::enc_u8(4) + (codec::enc_u32(
            resource_id,
        ) + codec::enc_u64(offset)),
        GpuJournalOpView::SetScanoutBlob {
            scanout_id,
            resource_id,
            width,
            height,
            format,
        } => codec::enc_u8(5) + enc_u32s(seq![scanout_id, resource_id, width, height, format]),
        GpuJournalOpView::ResourceCreate3d {
            resource_id,
            target,
            format,
            bind,
            width,
            height,
            depth,
            array_size,
            last_level,
            nr_samples,
            flags,
        } => codec::enc_u8(6) + enc_u32s(
            seq![
                resource_id,
                target,
                format,
                bind,
                width,
                height,
                depth,
                array_size,
                last_level,
                nr_samples,
                flags,
            ],
        ),
        GpuJournalOpView::ResourceCreate2d { resource_id, format, width, height } => codec::enc_u8(
            7,
        ) + enc_u32s(seq![resource_id, format, width, height]),
        GpuJournalOpView::AttachBacking { resource_id, backing } => codec::enc_u8(8) + (
        codec::enc_u32(resource_id) + enc_backing(backing)),
        GpuJournalOpView::SetScanout { scanout_id, resource_id, width, height } => codec::enc_u8(9)
            + enc_u32s(seq![scanout_id, resource_id, width, height]),
    }
}

pub open spec fn dec_ctx_create(s: Seq<u8>) -> Decoded<GpuJournalOpView> {
    match dec_u32s(s, 2) {
        Some((v, s)) => match dec_name(s) {
            Some((name, s)) => Some(
                (
                    GpuJournalOpView::CtxCreate { ctx_id: v[0], context_init: v[1], name },
                    s,
                ),
            ),
            None => None,
        },
        None => None,
    }
}

pub open spec fn dec_create_blob(s: Seq<u8>) -> Decoded<GpuJournalOpView> {
    match dec_u32s(s, 4) {
        Some((v, s)) => match codec::dec_u64(s) {
            Some((blob_id, s)) => match codec::dec_u64(s) {
                Some((size, s)) => match dec_backing(s) {
                    Some((backing, s)) => Some(
                        (
                            GpuJournalOpView::CreateBlob {
                                ctx_id: v[0],
                                resource_id: v[1],
                                blob_mem: v[2],
                                blob_flags: v[3],
                                blob_id,
                                size,
                                backing,
                            },
                            s,
                        ),
                    ),
                    None => None,
                },
                None => None,
            },
            None => None,
        },
        None => None,
    }
}

pub open spec fn dec_map_blob(s: Seq<u8>) -> Decoded<GpuJournalOpView> {
    match codec::dec_u32(s) {
        Some((resource_id, s)) => match codec::dec_u64(s) {
            Some((offset, s)) => Some((GpuJournalOpView::MapBlob { resource_id, offset }, s)),
            None => None,
        },
        None => None,
    }
}

pub open spec fn dec_attach_backing(s: Seq<u8>) -> Decoded<GpuJournalOpView> {
    match codec::dec_u32(s) {
        Some((resource_id, s)) => match dec_backing(s) {
            Some((backing, s)) => Some((GpuJournalOpView::AttachBacking { resource_id, backing }, s)),
            None => None,
        },
        None => None,
    }
}

/// How many 32-bit fields, and nothing else, the op of this tag has.
pub open spec fn plain_fields(tag: u8) -> Option<nat> {
    if tag == 2 || tag == 10 {
        Some(2)
    } else if tag == 5 {
        Some(5)
    } else if tag == 6 {
        Some(11)
    } else if tag == 7 || tag == 9 {
        Some(4)
    } else {
        None
    }
}

/// The op of this tag with these 32-bit fields.
pub open spec fn plain_op(tag: u8, v: Seq<u32>) -> GpuJournalOpView {
    if tag == 2 || tag == 10 {
        GpuJournalOpView::CtxAttachResource {
            ctx_id: v[0],
            resource_id: v[1],
            detached: tag == 10,
        }
    } else if tag == 5 {
        GpuJournalOpView::SetScanoutBlob {
            scanout_id: v[0],
            resource_id: v[1],
            width: v[2],
            height: v[3],
            format: v[4],
        }
    } else if tag == 6 {
        GpuJournalOpView::ResourceCreate3d {
            resource_id: v[0],
            target: v[1],
            format: v[2],
            bind: v[3],
            width: v[4],
            height: v[5],
            depth: v[6],
            array_size: v[7],
            last_level: v[8],
            nr_samples: v[9],
            flags: v[10],
        }
    } else if tag == 7 {
        GpuJournalOpView::ResourceCreate2d {
            resource_id: v[0],
            format: v[1],
            width: v[2],
            height: v[3],
        }
    } else {
        GpuJournalOpView::SetScanout {
            scanout_id: v[0],
            resource_id: v[1],
            width: v[2],
            height: v[3],
        }
    }
}

pub open spec fn dec_op_tagged(tag: u8, s: Seq<u8>) -> Decoded<GpuJournalOpView> {
    match plain_fields(tag) {
        Some(n) => match dec_u32s(s, n) {
            Some((v, s)) => Some((plain_op(tag, v), s)),
            None => None,
        },
        None => if tag == 1 {
            dec_ctx_create(s)
        } else if tag == 3 {
            dec_create_blob(s)
        } else if tag == 4 {
            dec_map_blob(s)
        } else if tag == 8 {
            dec_attach_backing(s)
        } else {
            None
        },
    }
}

/// An op by its tag; an unknown tag is refused.
pub open spec fn dec_op(s: Seq<u8>) -> Decoded<GpuJournalOpView> {
    match codec::dec_u8(s) {
        Some((tag, s)) => dec_op_tagged(tag, s),
        None => None,
    }
}

/// A journal entry: its watermark and its op. Its sequence number is its place in the list.
pub open spec fn enc_entry(e: (u64, GpuJournalOpView)) -> Seq<u8> {
    codec::enc_u64(e.0) + enc_op(e.1)
}

pub open spec fn dec_entry(s: Seq<u8>) -> Decoded<(u64, GpuJournalOpView)> {
    match codec::dec_u64(s) {
        Some((vkr_seq, s)) => match dec_op(s) {
            Some((op, s)) => Some(((vkr_seq, op), s)),
            None => None,
        },
        None => None,
    }
}

/// The entries without their sequence numbers.
pub open spec fn unnumbered(ops: Seq<GpuJournalEntryView>) -> Seq<(u64, GpuJournalOpView)> {
    ops.map_values(|e: GpuJournalEntryView| (e.vkr_seq, e.op))
}

/// The entries numbered from 1.
pub open spec fn numbered(ops: Seq<(u64, GpuJournalOpView)>) -> Seq<GpuJournalEntryView> {
    Seq::new(
        ops.len(),
        |i: int|
            GpuJournalEntryView { seq: (i + 1) as u64, vkr_seq: ops[i].0, op: ops[i].1 },
    )
}

pub open spec fn enc_ops(ops: Seq<(u64, GpuJournalOpView)>) -> Seq<u8> {
    codec::enc_u32(ops.len() as u32) + codec::enc_list(
        ops,
        |e: (u64, GpuJournalOpView)| enc_entry(e),
    )
}

pub open spec fn dec_ops(s: Seq<u8>) -> Decoded<Seq<(u64, GpuJournalOpView)>> {
    match codec::dec_u32(s) {
        Some((n, s)) => codec::dec_list(s, n as nat, |s: Seq<u8>| dec_entry(s)),
        None => None,
    }
}

pub open spec fn enc_tagged_entry(e: (u32, Seq<u8>)) -> Seq<u8> {
    codec::enc_u32(e.0) + codec::enc_blob(e.1)
}

pub open spec fn dec_tagged_entry(s: Seq<u8>) -> Decoded<(u32, Seq<u8>)> {
    match codec::dec_u32(s) {
        Some((id, s)) => match codec::dec_blob(s) {
            Some((b, s)) => Some(((id, b), s)),
            None => None,
        },
        None => None,
    }
}

/// A count and that many tagged byte strings.
pub open spec fn enc_tagged(v: Seq<(u32, Seq<u8>)>) -> Seq<u8> {
    codec::enc_u32(v.len() as u32) + codec::enc_list(v, |e: (u32, Seq<u8>)| enc_tagged_entry(e))
}

pub open spec fn dec_tagged(s: Seq<u8>) -> Decoded<Seq<(u32, Seq<u8>)>> {
    match codec::dec_u32(s) {
        Some((n, s)) => codec::dec_list(s, n as nat, |s: Seq<u8>| dec_tagged_entry(s)),
        None => None,
    }
}

pub open spec fn enc_memory_entry(e: (u32, u64, Seq<u8>)) -> Seq<u8> {
    codec::enc_u32(e.0) + (codec::enc_u64(e.1) + codec::enc_blob(e.2))
}

pub open spec fn dec_memory_entry(s: Seq<u8>) -> Decoded<(u32, u64, Seq<u8>)> {
    match codec::dec_u32(s) {
        Some((ctx_id, s)) => match codec::dec_u64(s) {
            Some((mem_id, s)) => match codec::dec_blob(s) {
                Some((b, s)) => Some(((ctx_id, mem_id, b), s)),
                None => None,
            },
            None => None,
        },
        None => None,
    }
}

pub open spec fn enc_memory(v: Seq<(u32, u64, Seq<u8>)>) -> Seq<u8> {
    codec::enc_u32(v.len() as u32) + codec::enc_list(
        v,
        |e: (u32, u64, Seq<u8>)| enc_memory_entry(e),
    )
}

pub open spec fn dec_memory(s: Seq<u8>) -> Decoded<Seq<(u32, u64, Seq<u8>)>> {
    match codec::dec_u32(s) {
        Some((n, s)) => codec::dec_list(s, n as nat, |s: Seq<u8>| dec_memory_entry(s)),
        None => None,
    }
}

/// The cursor behind a layout tag: 0 for none, 2 with a scanout id in front.
pub open spec fn enc_cursor(c: Option<CursorSnapshotView>) -> Seq<u8> {
    match c {
        Some(c) => codec::enc_u8(2) + (enc_u32s(
            seq![c.scanout_id, c.width, c.height, c.hot_x, c.hot_y, c.format, c.x, c.y],
        ) + codec::enc_blob(c.pixels)),
        None => codec::enc_u8(0),
    }
}

pub open spec fn dec_cursor_tagged(tag: u8, s: Seq<u8>) -> Decoded<Option<CursorSnapshotView>> {
    let fields: nat = if tag == 2 {
        8
    } else {
        7
    };
    match dec_u32s(s, fields) {
        Some((v, s)) => match codec::dec_blob(s) {
            Some((pixels, s)) => {
                let w = if tag == 2 {
                    v
                } else {
                    seq![0u32] + v
                };
                Some(
                    (
                        Some(
                            CursorSnapshotView {
                                scanout_id: w[0],
                                width: w[1],
                                height: w[2],
                                hot_x: w[3],
                                hot_y: w[4],
                                format: w[5],
                                x: w[6],
                                y: w[7],
                                pixels,
                            },
                        ),
                        s,
                    ),
                )
            },
            None => None,
        },
        None => None,
    }
}

/// The cursor. Layout 1 has no scanout id, which is then 0.
pub open spec fn dec_cursor(s: Seq<u8>) -> Decoded<Option<CursorSnapshotView>> {
    match codec::dec_u8(s) {
        Some((tag, s)) => if tag == 0 {
            Some((None, s))
        } else if tag == 1 || tag == 2 {
            dec_cursor_tagged(tag, s)
        } else {
            None
        },
        None => None,
    }
}

pub open spec fn enc_displays(v: Seq<DisplayInfoView>) -> Seq<u8> {
    codec::enc_u32(v.len() as u32) + codec::enc_list(
        v,
        |d: DisplayInfoView| display::enc_display(d),
    )
}

pub open spec fn dec_displays(s: Seq<u8>) -> Decoded<Seq<DisplayInfoView>> {
    match codec::dec_u32(s) {
        Some((n, s)) => codec::dec_list(s, n as nat, |s: Seq<u8>| display::dec_display(s)),
        None => None,
    }
}

pub open spec fn enc_frame(f: ScanoutFrameView) -> Seq<u8> {
    enc_u32s(seq![f.scanout_id, f.width, f.height]) + codec::enc_blob(f.pixels)
}

pub open spec fn dec_frame(s: Seq<u8>) -> Decoded<ScanoutFrameView> {
    match dec_u32s(s, 3) {
        Some((v, s)) => match codec::dec_blob(s) {
            Some((pixels, s)) => Some(
                (ScanoutFrameView { scanout_id: v[0], width: v[1], height: v[2], pixels }, s),
            ),
            None => None,
        },
        None => None,
    }
}

pub open spec fn enc_frames(v: Seq<ScanoutFrameView>) -> Seq<u8> {
    codec::enc_u32(v.len() as u32) + codec::enc_list(v, |f: ScanoutFrameView| enc_frame(f))
}

pub open spec fn dec_frames(s: Seq<u8>) -> Decoded<Seq<ScanoutFrameView>> {
    match codec::dec_u32(s) {
        Some((n, s)) => codec::dec_list(s, n as nat, |s: Seq<u8>| dec_frame(s)),
        None => None,
    }
}

/// The sections after the ops, as written.
pub open spec fn enc_sections(p: GpuSnapshotPayloadView) -> Seq<u8> {
    enc_tagged(p.vkr_journals) + (enc_tagged(p.blob_contents) + (
    enc_memory(p.memory_contents) + (enc_tagged(p.sync_states) + (
    enc_cursor(p.cursor) + (enc_tagged(p.classic_contents) + (
    enc_displays(p.displays) + enc_frames(p.scanout_frames)))))))
}

/// The payload: magic, version and the nine sections.
pub open spec fn enc_payload(p: GpuSnapshotPayloadView) -> Seq<u8> {
    codec::enc_u32(PAYLOAD_MAGIC) + (codec::enc_u32(PAYLOAD_VERSION) + (enc_ops(unnumbered(p.ops))
        + enc_sections(p)))
}

/// The sections after the ops.
pub open spec fn dec_sections(ops: Seq<(u64, GpuJournalOpView)>, s: Seq<u8>) -> Decoded<
    GpuSnapshotPayloadView,
> {
    match dec_tagged(s) {
        Some((vkr_journals, s)) => match dec_tagged(s) {
            Some((blob_contents, s)) => match dec_memory(s) {
                Some((memory_contents, s)) => match dec_tagged(s) {
                    Some((sync_states, s)) => match dec_cursor(s) {
                        Some((cursor, s)) => match dec_tagged(s) {
                            Some((classic_contents, s)) => match dec_displays(s) {
                                Some((displays, s)) => match dec_frames(s) {
                                    Some((scanout_frames, s)) => Some(
                                        (
                                            GpuSnapshotPayloadView {
                                                ops: numbered(ops),
                                                vkr_journals,
                                                blob_contents,
                                                memory_contents,
                                                sync_states,
                                                cursor,
                                                classic_contents,
                                                displays,
                                                scanout_frames,
                                            },
                                            s,
                                        ),
                                    ),
                                    None => None,
                                },
                                None => None,
                            },
                            None => None,
                        },
                        None => None,
                    },
                    None => None,
                },
                None => None,
            },
            None => None,
        },
        None => None,
    }
}

/// The payload at the front of `s`: refused unless magic and version are this format's and every
/// section reads. Bytes after the last section are left.
pub open spec fn dec_payload(s: Seq<u8>) -> Decoded<GpuSnapshotPayloadView> {
    match codec::dec_u32(s) {
        Some((magic, s)) => if magic != PAYLOAD_MAGIC {
            None
        } else {
            match codec::dec_u32(s) {
                Some((version, s)) => if version != PAYLOAD_VERSION {
                    None
                } else {
                    match dec_ops(s) {
                        Some((ops, s)) => dec_sections(ops, s),
                        None => None,
                    }
                },
                None => None,
            }
        },
        None => None,
    }
}

/// The string that `b` is the UTF-8 encoding of, by `std::str::from_utf8`: it is given exactly
/// when `b` is well-formed UTF-8, and its bytes are then `b`.
#[verifier::external_body]
pub(crate) fn str_from_utf8(b: &[u8]) -> (r: Option<&str>)
    ensures
        r is Some <==> vstd::utf8::valid_utf8(b@),
        r matches Some(s) ==> s@ == vstd::utf8::decode_utf8(b@),
{
    std::str::from_utf8(b).ok()
}

/// Appends 32-bit fields, one after another.
fn put_u32s(buf: &mut Vec<u8>, v: &[u32])
    ensures
        final(buf)@ == old(buf)@ + enc_u32s(v@),
{
    let ghost f = |x: u32| codec::enc_u32(x);
    let mut i: usize = 0;
    assert(v@.take(0) =~= Seq::empty());
    assert(buf@ =~= old(buf)@ + Seq::empty());
    while i < v.len()
        invariant
            i <= v@.len(),
            f == (|x: u32| codec::enc_u32(x)),
            buf@ == old(buf)@ + codec::enc_list(v@.take(i as int), f),
        decreases v@.len() - i,
    {
        broadcast use codec::lemma_concat_assoc;

        put_u32(buf, v[i]);
        proof {
            codec::lemma_list_push(v@, i as int, f);
        }
        i = i + 1;
    }
    assert(v@.take(v@.len() as int) =~= v@);
}

fn put_backing(buf: &mut Vec<u8>, backing: &Vec<(u64, usize)>)
    ensures
        final(buf)@ == old(buf)@ + enc_backing(backing@),
{
    broadcast use codec::lemma_concat_assoc;

    let ghost f = |r: (u64, usize)| enc_range(r);
    put_u32(buf, backing.len() as u32);
    let ghost head = buf@;
    let mut i: usize = 0;
    assert(backing@.take(0) =~= Seq::empty());
    assert(buf@ =~= head + Seq::empty());
    while i < backing.len()
        invariant
            i <= backing@.len(),
            f == (|r: (u64, usize)| enc_range(r)),
            buf@ == head + codec::enc_list(backing@.take(i as int), f),
        decreases backing@.len() - i,
    {
        broadcast use codec::lemma_concat_assoc;

        put_u64(buf, backing[i].0);
        put_u64(buf, backing[i].1 as u64);
        proof {
            codec::lemma_list_push(backing@, i as int, f);
        }
        i = i + 1;
    }
    assert(backing@.take(backing@.len() as int) =~= backing@);
}

fn put_name(buf: &mut Vec<u8>, name: &Option<String>)
    ensures
        final(buf)@ == old(buf)@ + enc_name(
            match *name {
                Some(n) => Some(n@),
                None => None,
            },
        ),
{
    broadcast use codec::lemma_concat_assoc;

    match name {
        Some(n) => {
            let bytes = n.as_str().as_bytes();
            put_u32(buf, bytes.len() as u32);
            put_bytes(buf, bytes);
        },
        None => {
            put_u32(buf, 0);
            assert(vstd::utf8::encode_utf8(Seq::empty()) =~= Seq::empty());
            assert(buf@ =~= old(buf)@ + (codec::enc_u32(0) + Seq::empty()));
        },
    }
}

/// Appends an op: its tag and its fields.
fn put_op(buf: &mut Vec<u8>, op: &GpuJournalOp)
    ensures
        final(buf)@ == old(buf)@ + enc_op(op@),
{
    broadcast use codec::lemma_concat_assoc;

    match op {
        GpuJournalOp::CtxCreate { ctx_id, context_init, name } => {
            put_u8(buf, 1);
            let v: [u32; 2] = [*ctx_id, *context_init];
            put_u32s(buf, v.as_slice());
            put_name(buf, name);
            assert(v@ =~= seq![*ctx_id, *context_init]);
        },
        GpuJournalOp::CtxAttachResource { ctx_id, resource_id, detached } => {
            put_u8(
                buf,
                if *detached {
                    10
                } else {
                    2
                },
            );
            let v: [u32; 2] = [*ctx_id, *resource_id];
            put_u32s(buf, v.as_slice());
            assert(v@ =~= seq![*ctx_id, *resource_id]);
        },
        GpuJournalOp::CreateBlob {
            ctx_id,
            resource_id,
            blob_mem,
            blob_flags,
            blob_id,
            size,
            backing,
        } => {
            put_u8(buf, 3);
            let v: [u32; 4] = [*ctx_id, *resource_id, *blob_mem, *blob_flags];
            put_u32s(buf, v.as_slice());
            put_u64(buf, *blob_id);
            put_u64(buf, *size);
            put_backing(buf, backing);
            assert(v@ =~= seq![*ctx_id, *resource_id, *blob_mem, *blob_flags]);
        },
        GpuJournalOp::MapBlob { resource_id, offset } => {
            put_u8(buf, 4);
            put_u32(buf, *resource_id);
            put_u64(buf, *offset);
        },
        GpuJournalOp::SetScanoutBlob { scanout_id, resource_id, width, height, format } => {
            put_u8(buf, 5);
            let v: [u32; 5] = [*scanout_id, *resource_id, *width, *height, *format];
            put_u32s(buf, v.as_slice());
            assert(v@ =~= seq![*scanout_id, *resource_id, *width, *height, *format]);
        },
        GpuJournalOp::ResourceCreate3d {
            resource_id,
            target,
            format,
            bind,
            width,
            height,
            depth,
            array_size,
            last_level,
            nr_samples,
            flags,
        } => {
            put_u8(buf, 6);
            let v: [u32; 11] = [
                *resource_id, *target, *format, *bind, *width, *height, *depth, *array_size,
                *last_level, *nr_samples, *flags,
            ];
            put_u32s(buf, v.as_slice());
            assert(v@ =~= seq![
                *resource_id, *target, *format, *bind, *width, *height, *depth, *array_size,
                *last_level, *nr_samples, *flags,
            ]);
        },
        GpuJournalOp::ResourceCreate2d { resource_id, format, width, height } => {
            put_u8(buf, 7);
            let v: [u32; 4] = [*resource_id, *format, *width, *height];
            put_u32s(buf, v.as_slice());
            assert(v@ =~= seq![*resource_id, *format, *width, *height]);
        },
        GpuJournalOp::AttachBacking { resource_id, backing } => {
            put_u8(buf, 8);
            put_u32(buf, *resource_id);
            put_backing(buf, backing);
        },
        GpuJournalOp::SetScanout { scanout_id, resource_id, width, height } => {
            put_u8(buf, 9);
            let v: [u32; 4] = [*scanout_id, *resource_id, *width, *height];
            put_u32s(buf, v.as_slice());
            assert(v@ =~= seq![*scanout_id, *resource_id, *width, *height]);
        },
    }
}

fn put_ops(buf: &mut Vec<u8>, ops: &Vec<GpuJournalEntry>)
    ensures
        final(buf)@ == old(buf)@ + enc_ops(unnumbered(ops_view(ops@))),
{
    broadcast use codec::lemma_concat_assoc;

    let ghost items = unnumbered(ops_view(ops@));
    let ghost f = |e: (u64, GpuJournalOpView)| enc_entry(e);
    put_u32(buf, ops.len() as u32);
    let ghost head = buf@;
    let mut i: usize = 0;
    assert(items.take(0) =~= Seq::empty());
    assert(buf@ =~= head + Seq::empty());
    while i < ops.len()
        invariant
            i <= ops@.len(),
            items == unnumbered(ops_view(ops@)),
            f == (|e: (u64, GpuJournalOpView)| enc_entry(e)),
            buf@ == head + codec::enc_list(items.take(i as int), f),
        decreases ops@.len() - i,
    {
        broadcast use codec::lemma_concat_assoc;

        put_u64(buf, ops[i].vkr_seq);
        put_op(buf, &ops[i].op);
        proof {
            codec::lemma_list_push(items, i as int, f);
        }
        i = i + 1;
    }
    assert(items.take(items.len() as int) =~= items);
}

fn put_tagged(buf: &mut Vec<u8>, v: &Vec<(u32, Vec<u8>)>)
    ensures
        final(buf)@ == old(buf)@ + enc_tagged(tagged_view(v@)),
{
    broadcast use codec::lemma_concat_assoc;

    let ghost items = tagged_view(v@);
    let ghost f = |e: (u32, Seq<u8>)| enc_tagged_entry(e);
    put_u32(buf, v.len() as u32);
    let ghost head = buf@;
    let mut i: usize = 0;
    assert(items.take(0) =~= Seq::empty());
    assert(buf@ =~= head + Seq::empty());
    while i < v.len()
        invariant
            i <= v@.len(),
            items == tagged_view(v@),
            f == (|e: (u32, Seq<u8>)| enc_tagged_entry(e)),
            buf@ == head + codec::enc_list(items.take(i as int), f),
        decreases v@.len() - i,
    {
        broadcast use codec::lemma_concat_assoc;

        put_u32(buf, v[i].0);
        put_blob(buf, &v[i].1);
        proof {
            codec::lemma_list_push(items, i as int, f);
        }
        i = i + 1;
    }
    assert(items.take(items.len() as int) =~= items);
}

fn put_memory(buf: &mut Vec<u8>, v: &Vec<(u32, u64, Vec<u8>)>)
    ensures
        final(buf)@ == old(buf)@ + enc_memory(memory_view(v@)),
{
    broadcast use codec::lemma_concat_assoc;

    let ghost items = memory_view(v@);
    let ghost f = |e: (u32, u64, Seq<u8>)| enc_memory_entry(e);
    put_u32(buf, v.len() as u32);
    let ghost head = buf@;
    let mut i: usize = 0;
    assert(items.take(0) =~= Seq::empty());
    assert(buf@ =~= head + Seq::empty());
    while i < v.len()
        invariant
            i <= v@.len(),
            items == memory_view(v@),
            f == (|e: (u32, u64, Seq<u8>)| enc_memory_entry(e)),
            buf@ == head + codec::enc_list(items.take(i as int), f),
        decreases v@.len() - i,
    {
        broadcast use codec::lemma_concat_assoc;

        put_u32(buf, v[i].0);
        put_u64(buf, v[i].1);
        put_blob(buf, &v[i].2);
        proof {
            codec::lemma_list_push(items, i as int, f);
        }
        i = i + 1;
    }
    assert(items.take(items.len() as int) =~= items);
}

fn put_cursor(buf: &mut Vec<u8>, cursor: &Option<CursorSnapshot>)
    ensures
        final(buf)@ == old(buf)@ + enc_cursor(
            match *cursor {
                Some(c) => Some(c@),
                None => None,
            },
        ),
{
    broadcast use codec::lemma_concat_assoc;

    match cursor {
        Some(c) => {
            put_u8(buf, 2);
            let v: [u32; 8] = [
                c.scanout_id, c.width, c.height, c.hot_x, c.hot_y, c.format, c.x, c.y,
            ];
            put_u32s(buf, v.as_slice());
            put_blob(buf, &c.pixels);
            assert(v@ =~= seq![
                c.scanout_id, c.width, c.height, c.hot_x, c.hot_y, c.format, c.x, c.y,
            ]);
        },
        None => {
            put_u8(buf, 0);
        },
    }
}

fn put_displays(buf: &mut Vec<u8>, v: &Vec<DisplayInfo>)
    ensures
        final(buf)@ == old(buf)@ + enc_displays(displays_view(v@)),
{
    broadcast use codec::lemma_concat_assoc;

    let ghost items = displays_view(v@);
    let ghost f = |d: DisplayInfoView| display::enc_display(d);
    put_u32(buf, v.len() as u32);
    let ghost head = buf@;
    let mut i: usize = 0;
    assert(items.take(0) =~= Seq::empty());
    assert(buf@ =~= head + Seq::empty());
    while i < v.len()
        invariant
            i <= v@.len(),
            items == displays_view(v@),
            f == (|d: DisplayInfoView| display::enc_display(d)),
            buf@ == head + codec::enc_list(items.take(i as int), f),
        decreases v@.len() - i,
    {
        broadcast use codec::lemma_concat_assoc;

        put_display(buf, &v[i]);
        proof {
            codec::lemma_list_push(items, i as int, f);
        }
        i = i + 1;
    }
    assert(items.take(items.len() as int) =~= items);
}

fn put_frames(buf: &mut Vec<u8>, v: &Vec<ScanoutFrame>)
    ensures
        final(buf)@ == old(buf)@ + enc_frames(frames_view(v@)),
{
    broadcast use codec::lemma_concat_assoc;

    let ghost items = frames_view(v@);
    let ghost f = |f: ScanoutFrameView| enc_frame(f);
    put_u32(buf, v.len() as u32);
    let ghost head = buf@;
    let mut i: usize = 0;
    assert(items.take(0) =~= Seq::empty());
    assert(buf@ =~= head + Seq::empty());
    while i < v.len()
        invariant
            i <= v@.len(),
            items == frames_view(v@),
            f == (|f: ScanoutFrameView| enc_frame(f)),
            buf@ == head + codec::enc_list(items.take(i as int), f),
        decreases v@.len() - i,
    {
        broadcast use codec::lemma_concat_assoc;

        let w: [u32; 3] = [v[i].scanout_id, v[i].width, v[i].height];
        put_u32s(buf, w.as_slice());
        put_blob(buf, &v[i].pixels);
        proof {
            assert(w@ =~= seq![v[i as int].scanout_id, v[i as int].width, v[i as int].height]);
            codec::lemma_list_push(items, i as int, f);
        }
        i = i + 1;
    }
    assert(items.take(items.len() as int) =~= items);
}

impl Default for GpuSnapshotPayload {
    /// The payload of a GPU on which nothing was done.
    fn default() -> (r: Self)
        ensures
            r@.ops.len() == 0,
            r@.vkr_journals.len() == 0,
            r@.blob_contents.len() == 0,
            r@.memory_contents.len() == 0,
            r@.sync_states.len() == 0,
            r@.cursor is None,
            r@.classic_contents.len() == 0,
            r@.displays.len() == 0,
            r@.scanout_frames.len() == 0,
    {
        GpuSnapshotPayload {
            ops: Vec::new(),
            vkr_journals: Vec::new(),
            blob_contents: Vec::new(),
            memory_contents: Vec::new(),
            sync_states: Vec::new(),
            cursor: None,
            classic_contents: Vec::new(),
            displays: Vec::new(),
            scanout_frames: Vec::new(),
        }
    }
}

impl GpuSnapshotPayload {
    /// The payload as bytes.
    pub fn to_bytes(&self) -> (r: Vec<u8>)
        ensures
            r@ == enc_payload(self@),
    {
        broadcast use codec::lemma_concat_assoc;

        let mut buf: Vec<u8> = Vec::new();
        put_u32(&mut buf, PAYLOAD_MAGIC);
        put_u32(&mut buf, PAYLOAD_VERSION);
        put_ops(&mut buf, &self.ops);
        put_tagged(&mut buf, &self.vkr_journals);
        put_tagged(&mut buf, &self.blob_contents);
        put_memory(&mut buf, &self.memory_contents);
        put_tagged(&mut buf, &self.sync_states);
        put_cursor(&mut buf, &self.cursor);
        put_tagged(&mut buf, &self.classic_contents);
        put_displays(&mut buf, &self.displays);
        put_frames(&mut buf, &self.scanout_frames);
        assert(Seq::<u8>::empty() + enc_payload(self@) =~= enc_payload(self@));
        buf
    }
}

/// Reads `n` 32-bit fields.
fn get_u32s(c: &mut Cursor, n: usize) -> (r: Option<Vec<u32>>)
    requires
        n > 0,
    ensures
        old(c).reads_view(*final(c), r, dec_u32s(old(c).rest(), n as nat)),
        r matches Some(v) ==> v@.len() == n,
{
    let mut items: Vec<u32> = Vec::new();
    let ghost g = |s: Seq<u8>| codec::dec_u32(s);
    let ghost start = c.rest();
    let mut i: usize = 0;
    while i < n
        invariant
            i <= n,
            items@.len() == i,
            c.data == old(c).data,
            start == old(c).rest(),
            g == (|s: Seq<u8>| codec::dec_u32(s)),
            codec::dec_list(start, i as nat, g) == Some((items@, c.rest())),
            i > 0 ==> c.wf(),
        decreases n - i,
    {
        proof {
            codec::lemma_list_step(start, i as nat, g);
            if codec::dec_u32(c.rest()) is None {
                codec::lemma_list_fails(start, (i + 1) as nat, n as nat, g);
            }
        }
        let v: u32 = c.u32()?;
        items.push(v);
        i = i + 1;
    }
    Some(items)
}

fn get_backing(c: &mut Cursor) -> (r: Option<Vec<(u64, usize)>>)
    ensures
        old(c).reads_view(*final(c), r, dec_backing(old(c).rest())),
{
    let n: usize = c.count(16)?;
    let mut items: Vec<(u64, usize)> = Vec::with_capacity(n);
    let ghost g = |s: Seq<u8>| dec_range(s);
    let ghost start = c.rest();
    let mut i: usize = 0;
    while i < n
        invariant
            i <= n,
            c.data == old(c).data,
            c.wf(),
            dec_backing(old(c).rest()) == codec::dec_list(start, n as nat, g),
            g == (|s: Seq<u8>| dec_range(s)),
            codec::dec_list(start, i as nat, g) == Some((items@, c.rest())),
        decreases n - i,
    {
        proof {
            codec::lemma_list_step(start, i as nat, g);
            if dec_range(c.rest()) is None {
                codec::lemma_list_fails(start, (i + 1) as nat, n as nat, g);
            }
        }
        let addr: u64 = c.u64()?;
        let len: usize = c.u64()? as usize;
        items.push((addr, len));
        i = i + 1;
    }
    Some(items)
}

fn get_name(c: &mut Cursor) -> (r: Option<Option<String>>)
    ensures
        final(c).data == old(c).data,
        match dec_name(old(c).rest()) {
            Some((v, rest)) => {
                &&& r is Some
                &&& match r.unwrap() {
                    Some(name) => v == Some(name@),
                    None => v is None,
                }
                &&& final(c).wf()
                &&& final(c).rest() == rest
            },
            None => r is None,
        },
{
    let n: usize = c.u32()? as usize;
    let b = c.take(n)?;
    let name = str_from_utf8(b)?;
    if name.is_empty() {
        Some(None)
    } else {
        Some(Some(name.to_owned()))
    }
}

/// Reads the fields of an op whose tag is `tag`.
fn get_op_tagged(c: &mut Cursor, tag: u8) -> (r: Option<GpuJournalOp>)
    requires
        old(c).wf(),
    ensures
        old(c).reads_view(*final(c), r, dec_op_tagged(tag, old(c).rest())),
{
    match tag {
        1 => {
            let v: Vec<u32> = get_u32s(c, 2)?;
            let name: Option<String> = get_name(c)?;
            Some(GpuJournalOp::CtxCreate { ctx_id: v[0], context_init: v[1], name })
        },
        2 | 10 => {
            let v: Vec<u32> = get_u32s(c, 2)?;
            Some(
                GpuJournalOp::CtxAttachResource {
                    ctx_id: v[0],
                    resource_id: v[1],
                    detached: tag == 10,
                },
            )
        },
        3 => {
            let v: Vec<u32> = get_u32s(c, 4)?;
            let blob_id: u64 = c.u64()?;
            let size: u64 = c.u64()?;
            let backing: Vec<(u64, usize)> = get_backing(c)?;
            Some(
                GpuJournalOp::CreateBlob {
                    ctx_id: v[0],
                    resource_id: v[1],
                    blob_mem: v[2],
                    blob_flags: v[3],
                    blob_id,
                    size,
                    backing,
                },
            )
        },
        4 => {
            let resource_id: u32 = c.u32()?;
            let offset: u64 = c.u64()?;
            Some(GpuJournalOp::MapBlob { resource_id, offset })
        },
        5 => {
            let v: Vec<u32> = get_u32s(c, 5)?;
            Some(
                GpuJournalOp::SetScanoutBlob {
                    scanout_id: v[0],
                    resource_id: v[1],
                    width: v[2],
                    height: v[3],
                    format: v[4],
                },
            )
        },
        6 => {
            let v: Vec<u32> = get_u32s(c, 11)?;
            Some(
                GpuJournalOp::ResourceCreate3d {
                    resource_id: v[0],
                    target: v[1],
                    format: v[2],
                    bind: v[3],
                    width: v[4],
                    height: v[5],
                    depth: v[6],
                    array_size: v[7],
                    last_level: v[8],
                    nr_samples: v[9],
                    flags: v[10],
                },
            )
        },
        7 => {
            let v: Vec<u32> = get_u32s(c, 4)?;
            Some(
                GpuJournalOp::ResourceCreate2d {
                    resource_id: v[0],
                    format: v[1],
                    width: v[2],
                    height: v[3],
                },
            )
        },
        8 => {
            let resource_id: u32 = c.u32()?;
            let backing: Vec<(u64, usize)> = get_backing(c)?;
            Some(GpuJournalOp::AttachBacking { resource_id, backing })
        },
        9 => {
            let v: Vec<u32> = get_u32s(c, 4)?;
            Some(
                GpuJournalOp::SetScanout {
                    scanout_id: v[0],
                    resource_id: v[1],
                    width: v[2],
                    height: v[3],
                },
            )
        },
        _ => None,
    }
}

fn get_op(c: &mut Cursor) -> (r: Option<GpuJournalOp>)
    ensures
        old(c).reads_view(*final(c), r, dec_op(old(c).rest())),
{
    let tag: u8 = c.u8()?;
    get_op_tagged(c, tag)
}

/// Reads the ops, numbering them from 1.
fn get_ops(c: &mut Cursor) -> (r: Option<Vec<GpuJournalEntry>>)
    ensures
        final(c).data == old(c).data,
        match dec_ops(old(c).rest()) {
            Some((v, rest)) => {
                &&& r is Some
                &&& ops_view(r.unwrap()@) == numbered(v)
                &&& final(c).wf()
                &&& final(c).rest() == rest
            },
            None => r is None,
        },
{
    let n: u32 = c.u32()?;
    let mut items: Vec<GpuJournalEntry> = Vec::new();
    let ghost g = |s: Seq<u8>| dec_entry(s);
    let ghost start = c.rest();
    let ghost mut parsed: Seq<(u64, GpuJournalOpView)> = Seq::empty();
    let mut i: u32 = 0;
    assert(ops_view(items@) =~= numbered(parsed));
    while i < n
        invariant
            i <= n,
            items@.len() == i,
            parsed.len() == i,
            c.data == old(c).data,
            c.wf(),
            dec_ops(old(c).rest()) == codec::dec_list(start, n as nat, g),
            g == (|s: Seq<u8>| dec_entry(s)),
            ops_view(items@) == numbered(parsed),
            codec::dec_list(start, i as nat, g) == Some((parsed, c.rest())),
        decreases n - i,
    {
        proof {
            codec::lemma_list_step(start, i as nat, g);
            if dec_entry(c.rest()) is None {
                codec::lemma_list_fails(start, (i + 1) as nat, n as nat, g);
            }
        }
        let ghost before = items@;
        let ghost was = parsed;
        let vkr_seq: u64 = c.u64()?;
        let op: GpuJournalOp = get_op(c)?;
        proof {
            parsed = parsed.push((vkr_seq, op@));
        }
        let entry = GpuJournalEntry { seq: (i + 1) as u64, vkr_seq, op };
        items.push(entry);
        proof {
            assert(ops_view(items@) =~= ops_view(before).push(entry@));
            assert(numbered(parsed) =~= numbered(was).push(entry@));
        }
        i = i + 1;
    }
    Some(items)
}

/// Reads a count and that many tagged byte strings.
fn get_tagged(c: &mut Cursor) -> (r: Option<Vec<(u32, Vec<u8>)>>)
    ensures
        final(c).data == old(c).data,
        match dec_tagged(old(c).rest()) {
            Some((v, rest)) => {
                &&& r is Some
                &&& tagged_view(r.unwrap()@) == v
                &&& final(c).wf()
                &&& final(c).rest() == rest
            },
            None => r is None,
        },
{
    let n: u32 = c.u32()?;
    let mut items: Vec<(u32, Vec<u8>)> = Vec::new();
    let ghost g = |s: Seq<u8>| dec_tagged_entry(s);
    let ghost start = c.rest();
    let mut i: u32 = 0;
    assert(tagged_view(items@) =~= Seq::empty());
    while i < n
        invariant
            i <= n,
            c.data == old(c).data,
            c.wf(),
            dec_tagged(old(c).rest()) == codec::dec_list(start, n as nat, g),
            g == (|s: Seq<u8>| dec_tagged_entry(s)),
            codec::dec_list(start, i as nat, g) == Some((tagged_view(items@), c.rest())),
        decreases n - i,
    {
        proof {
            codec::lemma_list_step(start, i as nat, g);
            if dec_tagged_entry(c.rest()) is None {
                codec::lemma_list_fails(start, (i + 1) as nat, n as nat, g);
            }
        }
        let ghost before = items@;
        let id: u32 = c.u32()?;
        let bytes: Vec<u8> = c.blob()?;
        let ghost item = (id, bytes@);
        items.push((id, bytes));
        assert(tagged_view(items@) =~= tagged_view(before).push(item));
        i = i + 1;
    }
    Some(items)
}

/// Reads the device memory contents.
fn get_memory(c: &mut Cursor) -> (r: Option<Vec<(u32, u64, Vec<u8>)>>)
    ensures
        final(c).data == old(c).data,
        match dec_memory(old(c).rest()) {
            Some((v, rest)) => {
                &&& r is Some
                &&& memory_view(r.unwrap()@) == v
                &&& final(c).wf()
                &&& final(c).rest() == rest
            },
            None => r is None,
        },
{
    let n: u32 = c.u32()?;
    let mut items: Vec<(u32, u64, Vec<u8>)> = Vec::new();
    let ghost g = |s: Seq<u8>| dec_memory_entry(s);
    let ghost start = c.rest();
    let mut i: u32 = 0;
    assert(memory_view(items@) =~= Seq::empty());
    while i < n
        invariant
            i <= n,
            c.data == old(c).data,
            c.wf(),
            dec_memory(old(c).rest()) == codec::dec_list(start, n as nat, g),
            g == (|s: Seq<u8>| dec_memory_entry(s)),
            codec::dec_list(start, i as nat, g) == Some((memory_view(items@), c.rest())),
        decreases n - i,
    {
        proof {
            codec::lemma_list_step(start, i as nat, g);
            if dec_memory_entry(c.rest()) is None {
                codec::lemma_list_fails(start, (i + 1) as nat, n as nat, g);
            }
        }
        let ghost before = items@;
        let ctx_id: u32 = c.u32()?;
        let mem_id: u64 = c.u64()?;
        let bytes: Vec<u8> = c.blob()?;
        let ghost item = (ctx_id, mem_id, bytes@);
        items.push((ctx_id, mem_id, bytes));
        assert(memory_view(items@) =~= memory_view(before).push(item));
        i = i + 1;
    }
    Some(items)
}

/// Reads the cursor.
fn get_cursor(c: &mut Cursor) -> (r: Option<Option<CursorSnapshot>>)
    ensures
        final(c).data == old(c).data,
        match dec_cursor(old(c).rest()) {
            Some((v, rest)) => {
                &&& r is Some
                &&& match r.unwrap() {
                    Some(cursor) => v == Some(cursor@),
                    None => v is None,
                }
                &&& final(c).wf()
                &&& final(c).rest() == rest
            },
            None => r is None,
        },
{
    let tag: u8 = c.u8()?;
    if tag == 0 {
        Some(None)
    } else if tag == 1 {
        let v: Vec<u32> = get_u32s(c, 7)?;
        let pixels: Vec<u8> = c.blob()?;
        Some(
            Some(
                CursorSnapshot {
                    scanout_id: 0,
                    width: v[0],
                    height: v[1],
                    hot_x: v[2],
                    hot_y: v[3],
                    format: v[4],
                    x: v[5],
                    y: v[6],
                    pixels,
                },
            ),
        )
    } else if tag == 2 {
        let v: Vec<u32> = get_u32s(c, 8)?;
        let pixels: Vec<u8> = c.blob()?;
        Some(
            Some(
                CursorSnapshot {
                    scanout_id: v[0],
                    width: v[1],
                    height: v[2],
                    hot_x: v[3],
                    hot_y: v[4],
                    format: v[5],
                    x: v[6],
                    y: v[7],
                    pixels,
                },
            ),
        )
    } else {
        None
    }
}

/// Reads the display configurations.
fn get_displays(c: &mut Cursor) -> (r: Option<Vec<DisplayInfo>>)
    ensures
        final(c).data == old(c).data,
        match dec_displays(old(c).rest()) {
            Some((v, rest)) => {
                &&& r is Some
                &&& displays_view(r.unwrap()@) == v
                &&& final(c).wf()
                &&& final(c).rest() == rest
            },
            None => r is None,
        },
{
    let n: u32 = c.u32()?;
    let mut items: Vec<DisplayInfo> = Vec::new();
    let ghost g = |s: Seq<u8>| display::dec_display(s);
    let ghost start = c.rest();
    let mut i: u32 = 0;
    assert(displays_view(items@) =~= Seq::empty());
    while i < n
        invariant
            i <= n,
            c.data == old(c).data,
            c.wf(),
            dec_displays(old(c).rest()) == codec::dec_list(start, n as nat, g),
            g == (|s: Seq<u8>| display::dec_display(s)),
            codec::dec_list(start, i as nat, g) == Some((displays_view(items@), c.rest())),
        decreases n - i,
    {
        proof {
            codec::lemma_list_step(start, i as nat, g);
            if display::dec_display(c.rest()) is None {
                codec::lemma_list_fails(start, (i + 1) as nat, n as nat, g);
            }
        }
        let ghost before = items@;
        let item: DisplayInfo = get_display(c)?;
        items.push(item);
        assert(displays_view(items@) =~= displays_view(before).push(item@));
        i = i + 1;
    }
    Some(items)
}

/// Reads the presented frames.
fn get_frames(c: &mut Cursor) -> (r: Option<Vec<ScanoutFrame>>)
    ensures
        final(c).data == old(c).data,
        match dec_frames(old(c).rest()) {
            Some((v, rest)) => {
                &&& r is Some
                &&& frames_view(r.unwrap()@) == v
                &&& final(c).wf()
                &&& final(c).rest() == rest
            },
            None => r is None,
        },
{
    let n: u32 = c.u32()?;
    let mut items: Vec<ScanoutFrame> = Vec::new();
    let ghost g = |s: Seq<u8>| dec_frame(s);
    let ghost start = c.rest();
    let mut i: u32 = 0;
    assert(frames_view(items@) =~= Seq::empty());
    while i < n
        invariant
            i <= n,
            c.data == old(c).data,
            c.wf(),
            dec_frames(old(c).rest()) == codec::dec_list(start, n as nat, g),
            g == (|s: Seq<u8>| dec_frame(s)),
            codec::dec_list(start, i as nat, g) == Some((frames_view(items@), c.rest())),
        decreases n - i,
    {
        proof {
            codec::lemma_list_step(start, i as nat, g);
            if dec_frame(c.rest()) is None {
                codec::lemma_list_fails(start, (i + 1) as nat, n as nat, g);
            }
        }
        let ghost before = items@;
        let v: Vec<u32> = get_u32s(c, 3)?;
        let pixels: Vec<u8> = c.blob()?;
        let item = ScanoutFrame { scanout_id: v[0], width: v[1], height: v[2], pixels };
        items.push(item);
        assert(frames_view(items@) =~= frames_view(before).push(item@));
        i = i + 1;
    }
    Some(items)
}

impl GpuSnapshotPayload {
    /// Reads a payload, or refuses the bytes: a foreign magic or version, an unknown tag, a count
    /// or a length that the bytes cannot hold, or a name that is not UTF-8. Bytes after the last
    /// section are ignored.
    pub fn from_bytes(data: &[u8]) -> (r: Option<GpuSnapshotPayload>)
        ensures
            match dec_payload(data@) {
                Some((v, rest)) => r is Some && r.unwrap()@ == v,
                None => r is None,
            },
    {
        let mut c = Cursor { data, pos: 0 };
        assert(c.rest() =~= data@);
        if c.u32()? != PAYLOAD_MAGIC {
            return None;
        }
        if c.u32()? != PAYLOAD_VERSION {
            return None;
        }
        let ops: Vec<GpuJournalEntry> = get_ops(&mut c)?;
        let vkr_journals: Vec<(u32, Vec<u8>)> = get_tagged(&mut c)?;
        let blob_contents: Vec<(u32, Vec<u8>)> = get_tagged(&mut c)?;
        let memory_contents: Vec<(u32, u64, Vec<u8>)> = get_memory(&mut c)?;
        let sync_states: Vec<(u32, Vec<u8>)> = get_tagged(&mut c)?;
        let cursor: Option<CursorSnapshot> = get_cursor(&mut c)?;
        let classic_contents: Vec<(u32, Vec<u8>)> = get_tagged(&mut c)?;
        let displays: Vec<DisplayInfo> = get_displays(&mut c)?;
        let scanout_frames: Vec<ScanoutFrame> = get_frames(&mut c)?;
        Some(
            GpuSnapshotPayload {
                ops,
                vkr_journals,
                blob_contents,
                memory_contents,
                sync_states,
                cursor,
                classic_contents,
                displays,
                scanout_frames,
            },
        )
    }
}

} // verus!
