//! The control queue's commands: what each does to the device, what it asks outside on the way and
//! what it is answered. A command that re-creation needs is journaled once it was carried out.
use crate::gpu::flush;
use crate::gpu::journal;
use crate::gpu::journal::JournalStep;
use crate::gpu::payload;
use crate::gpu::payload::{read_mem_entries, read_submission};
use crate::gpu::present::Rect;
use crate::gpu::protocol;
use crate::gpu::protocol::{
    DisplayError, GpuResponse, GpuResponseView, RendererError, ResourceFormat, BYTES_PER_PIXEL,
    VIRTIO_GPU_BLOB_FLAG_CREATE_GUEST_HANDLE, VIRTIO_GPU_BLOB_MEM_HOST3D, VIRTIO_GPU_MAX_SCANOUTS,
};
use crate::gpu::resource::{Sw2dView, VirtioGpuResource};
use crate::gpu::step::{
    Binding, Bulk, BulkView, CursorPlan, Reply, ReplyView, Request, Stage, Step, StepView,
};
use crate::gpu::trace::GpuTraceStats;
use crate::gpu::virtio_gpu;
use crate::gpu::virtio_gpu::{
    cursor_ok, copy_ranges, GpuView, ResourceCreate3D, ResourceCreateBlob, ScanoutRequest,
    Transfer3D, UnrefRequest, VirtioGpu, MAP_CACHE_MASK,
};
use crate::gpu_snapshot::{
    str_from_utf8, CursorSnapshot, CursorSnapshotView, GpuJournalOp, GpuJournalOpView,
};
use vstd::prelude::*;

verus! {

/// A command's header.
#[derive(Clone, Copy, PartialEq, Eq, Structural, Debug)]
pub struct CtrlHdr {
    pub type_: u32,
    pub flags: u32,
    pub fence_id: u64,
    pub ctx_id: u32,
    pub ring_idx: u8,
}

/// A command, without what follows its fixed part.
#[derive(Clone, Copy, Debug)]
#[allow(inconsistent_fields)]
pub enum GpuCommand {
    GetDisplayInfo,
    GetEdid { scanout: u32 },
    ResourceCreate2d { resource_id: u32, format: u32, width: u32, height: u32 },
    ResourceUnref { resource_id: u32 },
    SetScanout { scanout_id: u32, resource_id: u32, width: u32, height: u32 },
    ResourceFlush { resource_id: u32, rect: Rect },
    TransferToHost2d { resource_id: u32, rect: Rect },
    ResourceAttachBacking { resource_id: u32, nr_entries: u32 },
    ResourceDetachBacking { resource_id: u32 },
    UpdateCursor { scanout_id: u32, resource_id: u32, hot_x: u32, hot_y: u32, x: u32, y: u32 },
    MoveCursor { x: u32, y: u32 },
    ResourceAssignUuid { resource_id: u32 },
    GetCapsetInfo { capset_index: u32 },
    GetCapset { capset_id: u32, capset_version: u32 },
    CtxCreate { context_init: u32, debug_name: [u8; 64] },
    CtxDestroy,
    CtxAttachResource { resource_id: u32 },
    CtxDetachResource { resource_id: u32 },
    ResourceCreate3d { resource_id: u32, create: ResourceCreate3D },
    TransferToHost3d { resource_id: u32, transfer: Transfer3D },
    TransferFromHost3d { resource_id: u32, transfer: Transfer3D },
    CmdSubmit3d { size: u32, num_in_fences: u32 },
    ResourceCreateBlob { resource_id: u32, create: ResourceCreateBlob, nr_entries: u32 },
    SetScanoutBlob { scanout_id: u32, resource_id: u32, width: u32, height: u32, format: u32 },
    ResourceMapBlob { resource_id: u32, offset: u64 },
    ResourceUnmapBlob { resource_id: u32 },
}

impl GpuCommand {
    /// The device has an answer to the command: a blob with a handle of the guest's own is not
    /// supported, and a picture must be one that memory can hold or that no number can count.
    pub open spec fn answerable(self, payload: Seq<u8>) -> bool {
        match self {
            GpuCommand::ResourceCreate2d { format, width, height, .. } => {
                let len = width * height * BYTES_PER_PIXEL;
                ResourceFormat::of_code(format) is Some ==> len <= isize::MAX || len > usize::MAX
            },
            GpuCommand::ResourceCreateBlob { create, nr_entries, .. } => payload::mem_entries(
                payload,
                nr_entries,
            ) is Some ==> create.blob_flags & VIRTIO_GPU_BLOB_FLAG_CREATE_GUEST_HANDLE == 0,
            _ => true,
        }
    }
}

fn picture_answerable(format: u32, width: u32, height: u32) -> (r: bool)
    ensures
        r == {
            let len = width * height * BYTES_PER_PIXEL;
            ResourceFormat::of_code(format) is Some ==> len <= isize::MAX || len > usize::MAX
        },
{
    if ResourceFormat::from_code(format).is_none() {
        return true;
    }
    proof {
        let w = width as int;
        let h = height as int;
        assert(0 <= w * h <= 0xffff_ffff * 0xffff_ffff) by (nonlinear_arith)
            requires
                0 <= w <= 0xffff_ffff,
                0 <= h <= 0xffff_ffff,
        ;
    }
    let len: u128 = width as u128 * height as u128 * (BYTES_PER_PIXEL as u128);
    len <= isize::MAX as u128 || len > usize::MAX as u128
}

impl GpuCommand {
    /// Whether the device has an answer to the command.
    pub fn is_answerable(&self, payload: &[u8]) -> (r: bool)
        ensures
            r == self.answerable(payload@),
    {
        match *self {
            GpuCommand::ResourceCreate2d { format, width, height, .. } => picture_answerable(
                format,
                width,
                height,
            ),
            GpuCommand::ResourceCreateBlob { create, nr_entries, .. } => {
                read_mem_entries(payload, nr_entries).is_none() || create.blob_flags
                    & VIRTIO_GPU_BLOB_FLAG_CREATE_GUEST_HANDLE == 0
            },
            _ => true,
        }
    }
}

/// A rectangle as a transfer.
pub open spec fn transfer_2d(rect: Rect) -> Transfer3D {
    Transfer3D {
        x: rect.x,
        y: rect.y,
        z: 0,
        w: rect.width,
        h: rect.height,
        d: 1,
        level: 0,
        stride: 0,
        layer_stride: 0,
        offset: 0,
    }
}

/// A context's name, where its bytes are text.
pub open spec fn name_of(bytes: Seq<u8>) -> Option<Seq<char>> {
    if vstd::utf8::valid_utf8(bytes) {
        Some(vstd::utf8::decode_utf8(bytes))
    } else {
        None
    }
}

/// The journal entry of a 3D resource.
pub open spec fn op_3d(resource_id: u32, c: ResourceCreate3D) -> GpuJournalOpView {
    GpuJournalOpView::ResourceCreate3d {
        resource_id,
        target: c.target,
        format: c.format,
        bind: c.bind,
        width: c.width,
        height: c.height,
        depth: c.depth,
        array_size: c.array_size,
        last_level: c.last_level,
        nr_samples: c.nr_samples,
        flags: c.flags,
    }
}

impl GpuView {
    /// A command in the journal.
    pub open spec fn recorded(self, step: JournalStep) -> Self {
        GpuView { journal: self.journal.apply(step), ..self }
    }

    /// The command can go on from here with an answer.
    pub open spec fn awaits(self, stage: Stage) -> bool {
        match stage {
            Stage::ScanoutOn { binding } => binding.scanout_id < VIRTIO_GPU_MAX_SCANOUTS,
            Stage::ScanoutSurface { binding } => binding.scanout_id < VIRTIO_GPU_MAX_SCANOUTS,
            Stage::Flush { scanout_id, .. } => scanout_id < VIRTIO_GPU_MAX_SCANOUTS,
            Stage::MapInfo { resource_id, .. } => self.resources.contains_key(resource_id),
            Stage::MapPtr { resource_id, .. } => self.resources.contains_key(resource_id),
            Stage::AddMapping { resource_id, offset, .. } => self.resources.contains_key(
                resource_id,
            ) && self.map_addr(resource_id, offset) is Some,
            Stage::RemoveMapping { resource_id } => self.resources.contains_key(resource_id),
            _ => true,
        }
    }

    /// The step's stage, if it has one, can go on.
    pub open spec fn goes_on(self, step: StepView) -> bool {
        step matches StepView::Ask { stage, .. } ==> self.awaits(stage)
    }

    /// A request that only a renderer can answer.
    pub open spec fn ask_renderer(self, request: Request, stage: Stage) -> StepView {
        if self.renderer {
            StepView::ask(request, stage)
        } else {
            StepView::refused(GpuResponseView::ErrUnspec)
        }
    }

    pub open spec fn cmd_create_2d(self, resource_id: u32, format: u32, width: u32, height: u32) -> (
        Self,
        StepView,
    ) {
        let (after, r) = self.create_2d(resource_id, format, width, height);
        match r {
            Ok(_) => (
                after.recorded(
                    JournalStep::Create {
                        op: GpuJournalOpView::ResourceCreate2d { resource_id, format, width, height },
                        vkr_seq: 0,
                    },
                ),
                StepView::Done(r),
            ),
            Err(_) => (after, StepView::Done(r)),
        }
    }

    pub open spec fn cmd_unref(self, resource_id: u32) -> (Self, StepView) {
        let (after, r) = self.unref(resource_id);
        match r {
            Ok(UnrefRequest::Nothing) => after.unref_done(resource_id),
            Ok(UnrefRequest::Renderer { unmap }) => (
                after,
                if unmap {
                    StepView::ask(
                        Request::Unmap { resource_id },
                        Stage::UnrefUnmap { resource_id },
                    )
                } else {
                    StepView::ask(Request::Unref { resource_id }, Stage::Unref { resource_id })
                },
            ),
            Err(e) => (after, StepView::refused(e)),
        }
    }

    /// The resource is gone: so are its entries, and what the wire journal kept for it.
    pub open spec fn unref_done(self, resource_id: u32) -> (Self, StepView) {
        let after = self.recorded(JournalStep::ResourceUnref { resource_id });
        match journal::pinned_blob(self.journal.entries, resource_id) {
            Some((ctx_id, blob_id)) if self.renderer => (
                after,
                StepView::ask(Request::JournalUnpin { ctx_id, blob_id }, Stage::Settled),
            ),
            _ => (after, StepView::ok()),
        }
    }

    pub open spec fn cmd_scanout(self, binding: Binding) -> (Self, StepView) {
        let (after, r) = match binding.format {
            Some(format) => self.set_scanout_blob(
                binding.scanout_id,
                binding.resource_id,
                binding.width,
                binding.height,
                format,
            ),
            None => self.set_scanout(
                binding.scanout_id,
                binding.resource_id,
                binding.width,
                binding.height,
            ),
        };
        match r {
            Ok(ScanoutRequest::Disable { scanout_id }) => (
                after,
                StepView::ask(
                    Request::DisableScanout { scanout_id },
                    Stage::ScanoutOff { binding },
                ),
            ),
            Ok(
                ScanoutRequest::Configure {
                    scanout_id,
                    display_width,
                    display_height,
                    width,
                    height,
                    format,
                },
            ) => (
                after,
                StepView::ask(
                    Request::ConfigureScanout {
                        scanout_id,
                        display_width,
                        display_height,
                        width,
                        height,
                        format,
                    },
                    Stage::ScanoutOn { binding },
                ),
            ),
            Err(e) => (after, StepView::refused(e)),
        }
    }

    /// The scanout is bound as the command asked: the binding goes into the journal.
    pub open spec fn scanout_done(self, binding: Binding) -> (Self, StepView) {
        let step = match binding.format {
            Some(format) => JournalStep::SetScanoutBlob {
                scanout_id: binding.scanout_id,
                resource_id: binding.resource_id,
                width: binding.width,
                height: binding.height,
                format,
            },
            None => JournalStep::SetScanout {
                scanout_id: binding.scanout_id,
                resource_id: binding.resource_id,
                width: binding.width,
                height: binding.height,
            },
        };
        (self.recorded(step), StepView::ok())
    }

    /// The scanout shows the resource, and its surface where it has one.
    pub open spec fn scanout_shown(self, binding: Binding, surface: Option<u32>) -> (Self, StepView) {
        self.scanout_configured(
            binding.scanout_id,
            binding.resource_id,
            binding.width,
            binding.height,
            surface,
        ).scanout_done(binding)
    }

    /// The scanout commands go on with the display's answer, and then with the surface.
    pub open spec fn scanout_reply(self, stage: Stage, reply: ReplyView) -> (Self, StepView) {
        match (stage, reply) {
            (Stage::ScanoutOff { binding }, ReplyView::Display(r)) => match r {
                Ok(()) => self.scanout_done(binding),
                Err(e) => (self, StepView::refused(GpuResponseView::ErrDisplay(e))),
            },
            (Stage::ScanoutOn { binding }, ReplyView::Display(r)) => match r {
                Ok(()) => if self.renderer {
                    (
                        self,
                        StepView::ask(
                            Request::Surface { resource_id: binding.resource_id },
                            Stage::ScanoutSurface { binding },
                        ),
                    )
                } else {
                    self.scanout_shown(binding, None)
                },
                Err(e) => (self, StepView::refused(GpuResponseView::ErrDisplay(e))),
            },
            (Stage::ScanoutSurface { binding }, ReplyView::Number(n)) => self.scanout_shown(
                binding,
                match n {
                    Some(id) => Some(id as u32),
                    None => None,
                },
            ),
            _ => (self, StepView::refused(GpuResponseView::ErrUnspec)),
        }
    }

    /// A transfer to the host: a software-2D resource gathers its whole backing.
    pub open spec fn cmd_transfer_write(
        self,
        ctx_id: u32,
        resource_id: u32,
        transfer: Transfer3D,
    ) -> StepView {
        if self.sw2d.contains_key(resource_id) {
            StepView::Ask {
                request: Request::ReadGuest,
                stage: Stage::Gather { resource_id },
                data: BulkView { ranges: self.sw2d[resource_id].wanted(), ..BulkView::none() },
            }
        } else {
            self.ask_renderer(
                Request::TransferWrite { ctx_id, resource_id, transfer },
                Stage::Verdict,
            )
        }
    }

    /// A transfer from the host: a software-2D resource's backing already has the pixels.
    pub open spec fn cmd_transfer_read(
        self,
        ctx_id: u32,
        resource_id: u32,
        transfer: Transfer3D,
    ) -> StepView {
        if self.sw2d.contains_key(resource_id) {
            StepView::ok()
        } else {
            self.ask_renderer(
                Request::TransferRead { ctx_id, resource_id, transfer },
                Stage::Verdict,
            )
        }
    }

    /// The guest memory of a backing was looked for.
    pub open spec fn backing_checked(self, resource_id: u32, ranges: Seq<(u64, usize)>, there: bool) -> (
        Self,
        StepView,
    ) {
        if !there {
            (self, StepView::refused(GpuResponseView::ErrUnspec))
        } else if self.sw2d.contains_key(resource_id) {
            (
                self.with_sw2d(
                    resource_id,
                    Sw2dView { backing: ranges, ..self.sw2d[resource_id] },
                ).recorded(JournalStep::AttachBacking { resource_id, backing: ranges }),
                StepView::ok(),
            )
        } else if self.renderer {
            (
                self,
                StepView::Ask {
                    request: Request::AttachBacking { resource_id },
                    stage: Stage::AttachBacking { resource_id },
                    data: BulkView { ranges, ..BulkView::none() },
                },
            )
        } else {
            (self, StepView::refused(GpuResponseView::ErrUnspec))
        }
    }

    pub open spec fn cmd_detach_backing(self, resource_id: u32) -> (Self, StepView) {
        if self.sw2d.contains_key(resource_id) {
            (
                self.with_sw2d(
                    resource_id,
                    Sw2dView { backing: Seq::empty(), ..self.sw2d[resource_id] },
                ).recorded(JournalStep::DetachBacking { resource_id }),
                StepView::ok(),
            )
        } else {
            (
                self,
                self.ask_renderer(
                    Request::DetachBacking { resource_id },
                    Stage::DetachBacking { resource_id },
                ),
            )
        }
    }

    /// Resource 0 hides the cursor.
    pub open spec fn cmd_update_cursor(
        self,
        scanout_id: u32,
        resource_id: u32,
        hot_x: u32,
        hot_y: u32,
        x: u32,
        y: u32,
    ) -> (Self, StepView) {
        if resource_id == 0 {
            (
                GpuView { cursor: None, ..self },
                StepView::ask(
                    Request::SetCursor {
                        width: 0,
                        height: 0,
                        hot_x: 0,
                        hot_y: 0,
                        format: ResourceFormat::BGRA,
                    },
                    Stage::HideCursor,
                ),
            )
        } else {
            match self.cursor_image(resource_id) {
                Ok((width, height, format)) => (
                    self,
                    StepView::Ask {
                        request: Request::SetCursor { width, height, hot_x, hot_y, format },
                        stage: Stage::SetCursor {
                            plan: CursorPlan {
                                scanout_id,
                                width,
                                height,
                                hot_x,
                                hot_y,
                                format,
                                x,
                                y,
                            },
                        },
                        data: BulkView {
                            bytes: self.sw2d[resource_id].host,
                            ..BulkView::none()
                        },
                    },
                ),
                Err(e) => (self, StepView::refused(e)),
            }
        }
    }

    /// The cursor commands go on with the display's answer. What the display does not support it
    /// ignores.
    pub open spec fn cursor_reply(
        self,
        stage: Stage,
        data: BulkView,
        r: Result<(), DisplayError>,
    ) -> (Self, StepView) {
        let verdict = virtio_gpu::cursor_verdict(r);
        match stage {
            Stage::SetCursor { plan } if verdict is Ok => (
                self,
                StepView::Ask {
                    request: Request::MoveCursor { x: plan.x, y: plan.y },
                    stage: Stage::PlaceCursor { plan },
                    data: BulkView { bytes: data.bytes, ..BulkView::none() },
                },
            ),
            Stage::PlaceCursor { plan } if verdict is Ok => (
                GpuView {
                    cursor: Some(
                        CursorSnapshotView {
                            scanout_id: plan.scanout_id,
                            width: plan.width,
                            height: plan.height,
                            hot_x: plan.hot_x,
                            hot_y: plan.hot_y,
                            format: plan.format.code(),
                            x: plan.x,
                            y: plan.y,
                            pixels: data.bytes,
                        },
                    ),
                    ..self
                },
                StepView::ok(),
            ),
            Stage::MoveCursor { x, y } if verdict is Ok => (self.move_cursor(x, y), StepView::ok()),
            _ => (self, StepView::Done(verdict)),
        }
    }

    pub open spec fn cmd_create_context(self, ctx_id: u32, context_init: u32, name: Seq<u8>) -> StepView {
        if self.renderer {
            StepView::Ask {
                request: Request::CreateContext { ctx_id, context_init },
                stage: Stage::CreateContext { ctx_id, context_init },
                data: BulkView { name: name_of(name), ..BulkView::none() },
            }
        } else {
            StepView::refused(GpuResponseView::ErrUnspec)
        }
    }

    /// The context commands, and the commands on resources that only a renderer carries out: what
    /// the renderer did goes into the journal.
    pub open spec fn renderer_reply(
        self,
        stage: Stage,
        data: BulkView,
        r: Result<(), RendererError>,
    ) -> (Self, StepView) {
        match r {
            Err(e) => (self, StepView::refused(GpuResponseView::ErrRutabaga(e))),
            Ok(()) => match stage {
                Stage::UnrefUnmap { resource_id } => (
                    self,
                    StepView::ask(Request::Unref { resource_id }, Stage::Unref { resource_id }),
                ),
                Stage::Unref { resource_id } => self.unref_done(resource_id),
                Stage::AttachBacking { resource_id } => (
                    self.recorded(
                        JournalStep::AttachBacking { resource_id, backing: data.ranges },
                    ),
                    StepView::ok(),
                ),
                Stage::DetachBacking { resource_id } => (
                    self.recorded(JournalStep::DetachBacking { resource_id }),
                    StepView::ok(),
                ),
                Stage::CreateContext { ctx_id, context_init } => (
                    self.context_created(context_init).recorded(
                        JournalStep::CtxCreate { ctx_id, context_init, name: data.name },
                    ),
                    StepView::ok(),
                ),
                Stage::DestroyContext { ctx_id } => (
                    self.recorded(JournalStep::CtxDestroy { ctx_id }),
                    StepView::ok(),
                ),
                Stage::AttachResource { ctx_id, resource_id } => (
                    self.recorded(JournalStep::CtxAttach { ctx_id, resource_id }),
                    StepView::ok(),
                ),
                Stage::DetachResource { ctx_id, resource_id } => (
                    self.recorded(JournalStep::CtxDetach { ctx_id, resource_id }),
                    StepView::ok(),
                ),
                Stage::Create3d { resource_id, create } => (
                    GpuView {
                        resources: self.resources.insert(
                            resource_id,
                            VirtioGpuResource::fresh(
                                resource_id,
                                create.width,
                                create.height,
                                ResourceFormat::of_code(create.format),
                                0,
                            ),
                        ),
                        ..self
                    }.recorded(
                        JournalStep::Create { op: op_3d(resource_id, create), vkr_seq: 0 },
                    ),
                    StepView::ask(Request::Query { resource_id }, Stage::Queried),
                ),
                Stage::CreateBlob { ctx_id, resource_id, create } => (
                    GpuView {
                        resources: self.resources.insert(
                            resource_id,
                            VirtioGpuResource {
                                ctx_id,
                                ..VirtioGpuResource::fresh(resource_id, 0, 0, None, create.size)
                            },
                        ),
                        ..self
                    },
                    StepView::Ask {
                        request: Request::JournalSeq { ctx_id },
                        stage: Stage::BlobSeq { ctx_id, resource_id, create },
                        data: BulkView { ranges: data.ranges, ..BulkView::none() },
                    },
                ),
                _ => (self, StepView::ok()),
            },
        }
    }

    /// A submission is counted, whatever becomes of it. One without a payload is taken for done.
    pub open spec fn cmd_submit(self, ctx_id: u32, size: u32, fences: u32, payload: Seq<u8>) -> (
        Self,
        StepView,
    ) {
        let counted = GpuView {
            journal: self.journal.with_trace(
                GpuTraceStats {
                    submits: self.journal.trace.submits.wrapping_add(1),
                    ..self.journal.trace
                },
            ),
            ..self
        };
        if payload.len() == 0 {
            (counted, StepView::ok())
        } else {
            match payload::submission(payload, fences, size) {
                Ok((ids, buf)) => (
                    counted,
                    if self.renderer {
                        StepView::Ask {
                            request: Request::Submit { ctx_id },
                            stage: Stage::Verdict,
                            data: BulkView { bytes: buf, ids, ..BulkView::none() },
                        }
                    } else {
                        StepView::refused(GpuResponseView::ErrUnspec)
                    },
                ),
                Err(e) => (counted, StepView::refused(e)),
            }
        }
    }

    /// A blob of guest memory needs that memory; one of the renderer's own needs none.
    pub open spec fn cmd_create_blob(
        self,
        ctx_id: u32,
        resource_id: u32,
        create: ResourceCreateBlob,
        entries: Option<Seq<(u64, usize)>>,
    ) -> StepView {
        match entries {
            None => StepView::refused(GpuResponseView::ErrUnspec),
            Some(ranges) => if create.blob_mem != VIRTIO_GPU_BLOB_MEM_HOST3D {
                StepView::Ask {
                    request: Request::CheckGuest,
                    stage: Stage::CheckBlob { ctx_id, resource_id, create },
                    data: BulkView { ranges, ..BulkView::none() },
                }
            } else {
                self.ask_create_blob(ctx_id, resource_id, create, ranges, false)
            },
        }
    }

    pub open spec fn ask_create_blob(
        self,
        ctx_id: u32,
        resource_id: u32,
        create: ResourceCreateBlob,
        ranges: Seq<(u64, usize)>,
        backed: bool,
    ) -> StepView {
        if self.renderer {
            StepView::Ask {
                request: Request::CreateBlob { ctx_id, resource_id, create, backed },
                stage: Stage::CreateBlob { ctx_id, resource_id, create },
                data: BulkView { ranges, ..BulkView::none() },
            }
        } else {
            StepView::refused(GpuResponseView::ErrUnspec)
        }
    }

    /// A blob goes into the journal behind what the wire journal had when it was made.
    pub open spec fn blob_journaled(
        self,
        ctx_id: u32,
        resource_id: u32,
        create: ResourceCreateBlob,
        ranges: Seq<(u64, usize)>,
        vkr_seq: u64,
    ) -> (Self, StepView) {
        (
            self.recorded(
                JournalStep::Create {
                    op: GpuJournalOpView::CreateBlob {
                        ctx_id,
                        resource_id,
                        blob_mem: create.blob_mem,
                        blob_flags: create.blob_flags,
                        blob_id: create.blob_id,
                        size: create.size,
                        backing: ranges,
                    },
                    vkr_seq,
                },
            ),
            StepView::ask(Request::Query { resource_id }, Stage::Queried),
        )
    }

    pub open spec fn cmd_map_blob(self, resource_id: u32, offset: u64) -> StepView {
        if !self.resources.contains_key(resource_id) {
            StepView::refused(GpuResponseView::ErrInvalidResourceId)
        } else {
            self.ask_renderer(
                Request::MapInfo { resource_id },
                Stage::MapInfo { resource_id, offset },
            )
        }
    }

    pub open spec fn cmd_unmap_blob(self, resource_id: u32) -> StepView {
        if !self.resources.contains_key(resource_id) {
            StepView::refused(GpuResponseView::ErrInvalidResourceId)
        } else {
            match self.resources[resource_id].shmem_offset {
                Some(o) => StepView::ask(
                    Request::RemoveMapping {
                        guest_addr: (self.shm.guest_addr + o) as u64,
                        size: self.resources[resource_id].size,
                    },
                    Stage::RemoveMapping { resource_id },
                ),
                None => StepView::refused(GpuResponseView::ErrUnspec),
            }
        }
    }

    /// A blob's mapping goes on. It is made only where it lies inside the shared region.
    pub open spec fn map_reply(self, stage: Stage, reply: ReplyView) -> (Self, StepView) {
        match (stage, reply) {
            (Stage::MapInfo { resource_id, offset }, ReplyView::Number(Some(info))) => (
                self,
                StepView::ask(
                    Request::MapPtr { resource_id },
                    Stage::MapPtr { resource_id, offset, map_info: info as u32 },
                ),
            ),
            (
                Stage::MapPtr { resource_id, offset, map_info },
                ReplyView::Number(Some(host_addr)),
            ) => match self.map_addr(resource_id, offset) {
                Some(guest_addr) => (
                    self,
                    StepView::ask(
                        Request::AddMapping {
                            host_addr,
                            guest_addr,
                            size: self.resources[resource_id].size,
                        },
                        Stage::AddMapping { resource_id, offset, map_info },
                    ),
                ),
                None => (self, StepView::refused(GpuResponseView::ErrUnspec)),
            },
            (Stage::AddMapping { resource_id, offset, map_info }, ReplyView::Done(true)) => (
                self.mapped(resource_id, Some(offset)).recorded(
                    JournalStep::MapBlob { resource_id, offset },
                ),
                StepView::Done(
                    Ok(GpuResponseView::OkMapInfo { map_info: map_info & MAP_CACHE_MASK }),
                ),
            ),
            (Stage::RemoveMapping { resource_id }, ReplyView::Done(true)) => (
                self.mapped(resource_id, None).recorded(JournalStep::UnmapBlob { resource_id }),
                StepView::ok(),
            ),
            _ => (self, StepView::refused(GpuResponseView::ErrUnspec)),
        }
    }

    /// What a reading answer is answered with.
    pub open spec fn plain_reply(stage: Stage, reply: ReplyView) -> StepView {
        match (stage, reply) {
            (Stage::Settled, _) => StepView::ok(),
            (Stage::Queried, ReplyView::Query(q)) => StepView::Done(Ok(GpuView::plane_info(q))),
            (Stage::Edid, ReplyView::Bytes(Ok(b))) => StepView::Done(
                Ok(GpuResponseView::OkEdid(b)),
            ),
            (Stage::CapsetInfo, ReplyView::CapsetInfo(r)) => match r {
                Ok((capset_id, version, size)) => StepView::Done(
                    Ok(GpuResponseView::OkCapsetInfo { capset_id, version, size }),
                ),
                Err(e) => StepView::refused(GpuResponseView::ErrRutabaga(e)),
            },
            (Stage::Capset, ReplyView::Bytes(r)) => match r {
                Ok(b) => StepView::Done(Ok(GpuResponseView::OkCapset(b))),
                Err(e) => StepView::refused(GpuResponseView::ErrRutabaga(e)),
            },
            _ => StepView::refused(GpuResponseView::ErrUnspec),
        }
    }

    /// A command's first step.
    pub open spec fn begin(self, ctx_id: u32, cmd: GpuCommand, payload: Seq<u8>, armed: bool) -> (
        Self,
        StepView,
    ) {
        match cmd {
            GpuCommand::GetDisplayInfo => (
                self,
                StepView::Done(Ok(GpuResponseView::OkDisplayInfo(self.display_info()))),
            ),
            GpuCommand::GetEdid { scanout } => (
                self,
                if scanout < self.displays.len() {
                    StepView::ask(Request::Edid { scanout_id: scanout }, Stage::Edid)
                } else {
                    StepView::refused(GpuResponseView::ErrInvalidScanoutId)
                },
            ),
            GpuCommand::ResourceCreate2d { resource_id, format, width, height } => {
                self.cmd_create_2d(resource_id, format, width, height)
            },
            GpuCommand::ResourceUnref { resource_id } => self.cmd_unref(resource_id),
            GpuCommand::SetScanout { scanout_id, resource_id, width, height } => self.cmd_scanout(
                Binding { scanout_id, resource_id, width, height, format: None },
            ),
            GpuCommand::ResourceFlush { resource_id, rect } => self.flush_resource(
                resource_id,
                rect,
                armed,
            ),
            GpuCommand::TransferToHost2d { resource_id, rect } => (
                self,
                self.cmd_transfer_write(0, resource_id, transfer_2d(rect)),
            ),
            GpuCommand::ResourceAttachBacking { resource_id, nr_entries } => (
                self,
                match payload::mem_entries(payload, nr_entries) {
                    Some(ranges) if payload.len() > 0 => StepView::Ask {
                        request: Request::CheckGuest,
                        stage: Stage::CheckBacking { resource_id },
                        data: BulkView { ranges, ..BulkView::none() },
                    },
                    _ => StepView::refused(GpuResponseView::ErrUnspec),
                },
            ),
            GpuCommand::ResourceDetachBacking { resource_id } => self.cmd_detach_backing(
                resource_id,
            ),
            GpuCommand::UpdateCursor { scanout_id, resource_id, hot_x, hot_y, x, y } => {
                self.cmd_update_cursor(scanout_id, resource_id, hot_x, hot_y, x, y)
            },
            GpuCommand::MoveCursor { x, y } => (
                self,
                StepView::ask(Request::MoveCursor { x, y }, Stage::MoveCursor { x, y }),
            ),
            GpuCommand::ResourceAssignUuid { resource_id } => (
                self,
                if self.resources.contains_key(resource_id) {
                    StepView::Done(
                        Ok(
                            GpuResponseView::OkResourceUuid {
                                uuid: virtio_gpu::uuid_of(resource_id),
                            },
                        ),
                    )
                } else {
                    StepView::refused(GpuResponseView::ErrInvalidResourceId)
                },
            ),
            GpuCommand::GetCapsetInfo { capset_index } => (
                self,
                self.ask_renderer(Request::CapsetInfo { index: capset_index }, Stage::CapsetInfo),
            ),
            GpuCommand::GetCapset { capset_id, capset_version } => (
                self,
                self.ask_renderer(
                    Request::Capset { capset_id, version: capset_version },
                    Stage::Capset,
                ),
            ),
            GpuCommand::CtxCreate { context_init, debug_name } => (
                self,
                self.cmd_create_context(ctx_id, context_init, debug_name@),
            ),
            GpuCommand::CtxDestroy => (
                self,
                self.ask_renderer(
                    Request::DestroyContext { ctx_id },
                    Stage::DestroyContext { ctx_id },
                ),
            ),
            GpuCommand::CtxAttachResource { resource_id } => (
                self,
                self.ask_renderer(
                    Request::AttachResource { ctx_id, resource_id },
                    Stage::AttachResource { ctx_id, resource_id },
                ),
            ),
            GpuCommand::CtxDetachResource { resource_id } => (
                self,
                self.ask_renderer(
                    Request::DetachResource { ctx_id, resource_id },
                    Stage::DetachResource { ctx_id, resource_id },
                ),
            ),
            GpuCommand::ResourceCreate3d { resource_id, create } => (
                self,
                self.ask_renderer(
                    Request::CreateResource3d { resource_id, create },
                    Stage::Create3d { resource_id, create },
                ),
            ),
            GpuCommand::TransferToHost3d { resource_id, transfer } => (
                self,
                self.cmd_transfer_write(ctx_id, resource_id, transfer),
            ),
            GpuCommand::TransferFromHost3d { resource_id, transfer } => (
                self,
                self.cmd_transfer_read(ctx_id, resource_id, transfer),
            ),
            GpuCommand::CmdSubmit3d { size, num_in_fences } => self.cmd_submit(
                ctx_id,
                size,
                num_in_fences,
                payload,
            ),
            GpuCommand::ResourceCreateBlob { resource_id, create, nr_entries } => (
                self,
                self.cmd_create_blob(
                    ctx_id,
                    resource_id,
                    create,
                    payload::mem_entries(payload, nr_entries),
                ),
            ),
            GpuCommand::SetScanoutBlob { scanout_id, resource_id, width, height, format } => {
                self.cmd_scanout(
                    Binding { scanout_id, resource_id, width, height, format: Some(format) },
                )
            },
            GpuCommand::ResourceMapBlob { resource_id, offset } => (
                self,
                self.cmd_map_blob(resource_id, offset),
            ),
            GpuCommand::ResourceUnmapBlob { resource_id } => (
                self,
                self.cmd_unmap_blob(resource_id),
            ),
        }
    }

    /// A command goes on with an answer. An answer that does not fit what was asked refuses it.
    pub open spec fn resume(self, stage: Stage, data: BulkView, reply: ReplyView) -> (
        Self,
        StepView,
    ) {
        match (stage, reply) {
            (Stage::Flush { flush, scanout_id, at }, _) => self.flush_reply(
                flush,
                scanout_id,
                at,
                reply,
            ),
            (Stage::ScanoutOff { .. }, _) => self.scanout_reply(stage, reply),
            (Stage::ScanoutOn { .. }, _) => self.scanout_reply(stage, reply),
            (Stage::ScanoutSurface { .. }, _) => self.scanout_reply(stage, reply),
            (Stage::MapInfo { .. }, _) => self.map_reply(stage, reply),
            (Stage::MapPtr { .. }, _) => self.map_reply(stage, reply),
            (Stage::AddMapping { .. }, _) => self.map_reply(stage, reply),
            (Stage::RemoveMapping { .. }, _) => self.map_reply(stage, reply),
            (Stage::Gather { resource_id }, ReplyView::Bytes(Ok(bytes))) => (
                if self.sw2d.contains_key(resource_id) {
                    self.with_sw2d(resource_id, self.sw2d[resource_id].filled(bytes))
                } else {
                    self
                },
                StepView::ok(),
            ),
            (Stage::CheckBacking { resource_id }, ReplyView::Done(there)) => self.backing_checked(
                resource_id,
                data.ranges,
                there,
            ),
            (Stage::CheckBlob { ctx_id, resource_id, create }, ReplyView::Done(there)) => (
                self,
                if there {
                    self.ask_create_blob(ctx_id, resource_id, create, data.ranges, true)
                } else {
                    StepView::refused(GpuResponseView::ErrUnspec)
                },
            ),
            (Stage::BlobSeq { ctx_id, resource_id, create }, ReplyView::Number(seq)) => {
                self.blob_journaled(
                    ctx_id,
                    resource_id,
                    create,
                    data.ranges,
                    match seq {
                        Some(seq) => seq,
                        None => 0,
                    },
                )
            },
            (Stage::HideCursor, ReplyView::Display(r)) => self.cursor_reply(stage, data, r),
            (Stage::SetCursor { .. }, ReplyView::Display(r)) => self.cursor_reply(stage, data, r),
            (Stage::PlaceCursor { .. }, ReplyView::Display(r)) => self.cursor_reply(stage, data, r),
            (Stage::MoveCursor { .. }, ReplyView::Display(r)) => self.cursor_reply(stage, data, r),
            (_, ReplyView::Renderer(r)) => self.renderer_reply(stage, data, r),
            _ => (self, Self::plain_reply(stage, reply)),
        }
    }
}

impl VirtioGpu {
    fn ask_renderer(&self, request: Request, stage: Stage) -> (r: Step)
        ensures
            r@ == self@.ask_renderer(request, stage),
    {
        if self.has_renderer() {
            Step::ask(request, stage)
        } else {
            Step::refused(GpuResponse::ErrUnspec)
        }
    }

    /// Asks for a display's EDID.
    pub fn get_edid(&self, scanout_id: u32) -> (r: Step)
        ensures
            r@ == if scanout_id < self@.displays.len() {
                StepView::ask(Request::Edid { scanout_id }, Stage::Edid)
            } else {
                StepView::refused(GpuResponseView::ErrInvalidScanoutId)
            },
    {
        match self.edid_of(scanout_id) {
            Ok(_) => Step::ask(Request::Edid { scanout_id }, Stage::Edid),
            Err(e) => Step::refused(e),
        }
    }

    /// Asks for the capabilities at an index.
    pub fn get_capset_info(&self, index: u32) -> (r: Step)
        ensures
            r@ == self@.ask_renderer(Request::CapsetInfo { index }, Stage::CapsetInfo),
    {
        self.ask_renderer(Request::CapsetInfo { index }, Stage::CapsetInfo)
    }

    /// Asks for a set of capabilities.
    pub fn get_capset(&self, capset_id: u32, version: u32) -> (r: Step)
        ensures
            r@ == self@.ask_renderer(Request::Capset { capset_id, version }, Stage::Capset),
    {
        self.ask_renderer(Request::Capset { capset_id, version }, Stage::Capset)
    }

    /// Ends a rendering context.
    pub fn destroy_context(&self, ctx_id: u32) -> (r: Step)
        ensures
            r@ == self@.ask_renderer(
                Request::DestroyContext { ctx_id },
                Stage::DestroyContext { ctx_id },
            ),
    {
        self.ask_renderer(Request::DestroyContext { ctx_id }, Stage::DestroyContext { ctx_id })
    }

    /// Gives a context a resource to work on.
    pub fn context_attach_resource(&self, ctx_id: u32, resource_id: u32) -> (r: Step)
        ensures
            r@ == self@.ask_renderer(
                Request::AttachResource { ctx_id, resource_id },
                Stage::AttachResource { ctx_id, resource_id },
            ),
    {
        self.ask_renderer(
            Request::AttachResource { ctx_id, resource_id },
            Stage::AttachResource { ctx_id, resource_id },
        )
    }

    /// Takes a resource from a context.
    pub fn context_detach_resource(&self, ctx_id: u32, resource_id: u32) -> (r: Step)
        ensures
            r@ == self@.ask_renderer(
                Request::DetachResource { ctx_id, resource_id },
                Stage::DetachResource { ctx_id, resource_id },
            ),
    {
        self.ask_renderer(
            Request::DetachResource { ctx_id, resource_id },
            Stage::DetachResource { ctx_id, resource_id },
        )
    }

    /// Makes a resource of the renderer's.
    pub fn resource_create_3d(&self, resource_id: u32, create: ResourceCreate3D) -> (r: Step)
        ensures
            r@ == self@.ask_renderer(
                Request::CreateResource3d { resource_id, create },
                Stage::Create3d { resource_id, create },
            ),
    {
        self.ask_renderer(
            Request::CreateResource3d { resource_id, create },
            Stage::Create3d { resource_id, create },
        )
    }

    /// Gives a resource its backing: ranges that have to lie in guest memory.
    pub fn attach_backing(resource_id: u32, ranges: Vec<(u64, usize)>) -> (r: Step)
        ensures
            r@ == (StepView::Ask {
                request: Request::CheckGuest,
                stage: Stage::CheckBacking { resource_id },
                data: BulkView { ranges: ranges@, ..BulkView::none() },
            }),
    {
        Step::ask_with(
            Request::CheckGuest,
            Stage::CheckBacking { resource_id },
            Bulk::of_ranges(ranges),
        )
    }

    /// Moves the cursor.
    pub fn move_cursor(x: u32, y: u32) -> (r: Step)
        ensures
            r@ == StepView::ask(Request::MoveCursor { x, y }, Stage::MoveCursor { x, y }),
    {
        Step::ask(Request::MoveCursor { x, y }, Stage::MoveCursor { x, y })
    }

    fn cmd_create_2d(&mut self, resource_id: u32, format: u32, width: u32, height: u32) -> (r: Step)
        requires
            old(self)@.wf(),
            old(self)@.has_room(),
            ResourceFormat::of_code(format) is Some ==> width * height * BYTES_PER_PIXEL
                <= isize::MAX || width * height * BYTES_PER_PIXEL > usize::MAX,
        ensures
            (final(self)@, r@) == old(self)@.cmd_create_2d(resource_id, format, width, height),
            final(self)@.wf(),
    {
        let r = self.resource_create_2d(resource_id, format, width, height);
        if r.is_ok() {
            self.journal_mut().resource_create_2d(resource_id, format, width, height);
        }
        Step::Done(r)
    }

    fn cmd_unref(&mut self, resource_id: u32) -> (r: Step)
        requires
            old(self)@.wf(),
            old(self)@.has_room(),
        ensures
            (final(self)@, r@) == old(self)@.cmd_unref(resource_id),
            final(self)@.wf(),
    {
        match self.unref_resource(resource_id) {
            Ok(UnrefRequest::Nothing) => self.unref_done(resource_id),
            Ok(UnrefRequest::Renderer { unmap }) => if unmap {
                Step::ask(Request::Unmap { resource_id }, Stage::UnrefUnmap { resource_id })
            } else {
                Step::ask(Request::Unref { resource_id }, Stage::Unref { resource_id })
            },
            Err(e) => Step::refused(e),
        }
    }

    fn unref_done(&mut self, resource_id: u32) -> (r: Step)
        requires
            old(self)@.wf(),
        ensures
            (final(self)@, r@) == old(self)@.unref_done(resource_id),
            final(self)@.wf(),
    {
        match self.journal_mut().resource_unref(resource_id) {
            Some((ctx_id, blob_id)) => if self.has_renderer() {
                Step::ask(Request::JournalUnpin { ctx_id, blob_id }, Stage::Settled)
            } else {
                Step::ok()
            },
            None => Step::ok(),
        }
    }

    fn cmd_scanout(&mut self, binding: Binding) -> (r: Step)
        requires
            old(self)@.wf(),
        ensures
            (final(self)@, r@) == old(self)@.cmd_scanout(binding),
            final(self)@.wf(),
            final(self)@.goes_on(r@),
    {
        let r = match binding.format {
            Some(format) => self.set_scanout_blob(
                binding.scanout_id,
                binding.resource_id,
                binding.width,
                binding.height,
                format,
            ),
            None => self.set_scanout(
                binding.scanout_id,
                binding.resource_id,
                binding.width,
                binding.height,
            ),
        };
        match r {
            Ok(ScanoutRequest::Disable { scanout_id }) => Step::ask(
                Request::DisableScanout { scanout_id },
                Stage::ScanoutOff { binding },
            ),
            Ok(
                ScanoutRequest::Configure {
                    scanout_id,
                    display_width,
                    display_height,
                    width,
                    height,
                    format,
                },
            ) => Step::ask(
                Request::ConfigureScanout {
                    scanout_id,
                    display_width,
                    display_height,
                    width,
                    height,
                    format,
                },
                Stage::ScanoutOn { binding },
            ),
            Err(e) => Step::refused(e),
        }
    }

    fn scanout_done(&mut self, binding: Binding) -> (r: Step)
        requires
            old(self)@.wf(),
            old(self)@.has_room(),
        ensures
            (final(self)@, r@) == old(self)@.scanout_done(binding),
            final(self)@.wf(),
    {
        match binding.format {
            Some(format) => {
                self.journal_mut().set_scanout_blob(
                    binding.scanout_id,
                    binding.resource_id,
                    binding.width,
                    binding.height,
                    format,
                );
            },
            None => {
                self.journal_mut().set_scanout(
                    binding.scanout_id,
                    binding.resource_id,
                    binding.width,
                    binding.height,
                );
            },
        }
        Step::ok()
    }

    fn scanout_shown(&mut self, binding: Binding, surface: Option<u32>) -> (r: Step)
        requires
            old(self)@.wf(),
            old(self)@.has_room(),
            binding.scanout_id < VIRTIO_GPU_MAX_SCANOUTS,
        ensures
            (final(self)@, r@) == old(self)@.scanout_shown(binding, surface),
            final(self)@.wf(),
    {
        self.scanout_configured(
            binding.scanout_id,
            binding.resource_id,
            binding.width,
            binding.height,
            surface,
        );
        self.scanout_done(binding)
    }

    fn scanout_reply(&mut self, stage: Stage, reply: Reply) -> (r: Step)
        requires
            old(self)@.wf(),
            old(self)@.has_room(),
            old(self)@.awaits(stage),
        ensures
            (final(self)@, r@) == old(self)@.scanout_reply(stage, reply@),
            final(self)@.wf(),
            final(self)@.goes_on(r@),
    {
        match (stage, reply) {
            (Stage::ScanoutOff { binding }, Reply::Display(r)) => match r {
                Ok(()) => self.scanout_done(binding),
                Err(e) => Step::refused(GpuResponse::ErrDisplay(e)),
            },
            (Stage::ScanoutOn { binding }, Reply::Display(r)) => match r {
                Ok(()) => if self.has_renderer() {
                    Step::ask(
                        Request::Surface { resource_id: binding.resource_id },
                        Stage::ScanoutSurface { binding },
                    )
                } else {
                    self.scanout_shown(binding, None)
                },
                Err(e) => Step::refused(GpuResponse::ErrDisplay(e)),
            },
            (Stage::ScanoutSurface { binding }, Reply::Number(n)) => {
                let surface: Option<u32> = match n {
                    Some(id) => Some(id as u32),
                    None => None,
                };
                self.scanout_shown(binding, surface)
            },
            _ => Step::refused(GpuResponse::ErrUnspec),
        }
    }

    /// Copies a resource's backing into it. A software-2D resource gathers it here; any other is the
    /// renderer's.
    pub fn transfer_write(&self, ctx_id: u32, resource_id: u32, transfer: Transfer3D) -> (r: Step)
        ensures
            r@ == self@.cmd_transfer_write(ctx_id, resource_id, transfer),
    {
        match self.sw2d_wanted(resource_id) {
            Some(ranges) => Step::ask_with(
                Request::ReadGuest,
                Stage::Gather { resource_id },
                Bulk::of_ranges(ranges),
            ),
            None => self.ask_renderer(
                Request::TransferWrite { ctx_id, resource_id, transfer },
                Stage::Verdict,
            ),
        }
    }

    /// Copies a resource into its backing. A software-2D resource's backing already has the pixels.
    pub fn transfer_read(&self, ctx_id: u32, resource_id: u32, transfer: Transfer3D) -> (r: Step)
        ensures
            r@ == self@.cmd_transfer_read(ctx_id, resource_id, transfer),
    {
        if self.has_sw2d(resource_id) {
            Step::ok()
        } else {
            self.ask_renderer(
                Request::TransferRead { ctx_id, resource_id, transfer },
                Stage::Verdict,
            )
        }
    }

    fn backing_checked(&mut self, resource_id: u32, ranges: Vec<(u64, usize)>, there: bool) -> (r:
        Step)
        requires
            old(self)@.wf(),
            old(self)@.has_room(),
        ensures
            (final(self)@, r@) == old(self)@.backing_checked(resource_id, ranges@, there),
            final(self)@.wf(),
    {
        if !there {
            return Step::refused(GpuResponse::ErrUnspec);
        }
        if self.sw2d_set_backing(resource_id, &ranges) {
            self.journal_mut().attach_backing(resource_id, ranges);
            Step::ok()
        } else if self.has_renderer() {
            Step::ask_with(
                Request::AttachBacking { resource_id },
                Stage::AttachBacking { resource_id },
                Bulk::of_ranges(ranges),
            )
        } else {
            Step::refused(GpuResponse::ErrUnspec)
        }
    }

    /// Takes a resource's backing away.
    pub fn detach_backing(&mut self, resource_id: u32) -> (r: Step)
        requires
            old(self)@.wf(),
        ensures
            (final(self)@, r@) == old(self)@.cmd_detach_backing(resource_id),
            final(self)@.wf(),
    {
        let none: Vec<(u64, usize)> = Vec::new();
        assert(none@ =~= Seq::empty());
        if self.sw2d_set_backing(resource_id, &none) {
            self.journal_mut().detach_backing(resource_id);
            Step::ok()
        } else {
            self.ask_renderer(
                Request::DetachBacking { resource_id },
                Stage::DetachBacking { resource_id },
            )
        }
    }

    /// Shows a resource as the cursor, or hides the cursor.
    pub fn update_cursor(
        &mut self,
        scanout_id: u32,
        resource_id: u32,
        hot_x: u32,
        hot_y: u32,
        x: u32,
        y: u32,
    ) -> (r: Step)
        requires
            old(self)@.wf(),
        ensures
            (final(self)@, r@) == old(self)@.cmd_update_cursor(
                scanout_id,
                resource_id,
                hot_x,
                hot_y,
                x,
                y,
            ),
            final(self)@.wf(),
    {
        if resource_id == 0 {
            self.set_cursor_state(None);
            return Step::ask(
                Request::SetCursor {
                    width: 0,
                    height: 0,
                    hot_x: 0,
                    hot_y: 0,
                    format: ResourceFormat::BGRA,
                },
                Stage::HideCursor,
            );
        }
        match self.cursor_image(resource_id) {
            Ok((width, height, format)) => {
                let pixels: Vec<u8> = match self.sw2d_pixels(resource_id) {
                    Some(p) => p,
                    None => Vec::new(),
                };
                Step::ask_with(
                    Request::SetCursor { width, height, hot_x, hot_y, format },
                    Stage::SetCursor {
                        plan: CursorPlan { scanout_id, width, height, hot_x, hot_y, format, x, y },
                    },
                    Bulk::of_bytes(pixels),
                )
            },
            Err(e) => Step::refused(e),
        }
    }

    fn cursor_reply(&mut self, stage: Stage, data: Bulk, result: Result<(), DisplayError>) -> (r:
        Step)
        requires
            old(self)@.wf(),
        ensures
            (final(self)@, r@) == old(self)@.cursor_reply(stage, data@, result),
            final(self)@.wf(),
    {
        let verdict = cursor_ok(result);
        match verdict {
            Err(e) => Step::refused(e),
            Ok(ok) => match stage {
                Stage::SetCursor { plan } => Step::ask_with(
                    Request::MoveCursor { x: plan.x, y: plan.y },
                    Stage::PlaceCursor { plan },
                    Bulk::of_bytes(data.bytes),
                ),
                Stage::PlaceCursor { plan } => {
                    self.set_cursor_state(
                        Some(
                            CursorSnapshot {
                                scanout_id: plan.scanout_id,
                                width: plan.width,
                                height: plan.height,
                                hot_x: plan.hot_x,
                                hot_y: plan.hot_y,
                                format: plan.format.to_code(),
                                x: plan.x,
                                y: plan.y,
                                pixels: data.bytes,
                            },
                        ),
                    );
                    Step::ok()
                },
                Stage::MoveCursor { x, y } => {
                    self.move_cursor_state(x, y);
                    Step::ok()
                },
                _ => Step::Done(Ok(ok)),
            },
        }
    }

    /// Makes a rendering context. Its name is kept where it is text.
    pub fn create_context(&self, ctx_id: u32, context_init: u32, name: &[u8]) -> (r: Step)
        ensures
            r@ == self@.cmd_create_context(ctx_id, context_init, name@),
    {
        if self.has_renderer() {
            let text: Option<String> = match str_from_utf8(name) {
                Some(s) => Some(s.to_owned()),
                None => None,
            };
            Step::ask_with(
                Request::CreateContext { ctx_id, context_init },
                Stage::CreateContext { ctx_id, context_init },
                Bulk { bytes: Vec::new(), ranges: Vec::new(), ids: Vec::new(), name: text },
            )
        } else {
            Step::refused(GpuResponse::ErrUnspec)
        }
    }

    fn resource_made_3d(&mut self, resource_id: u32, create: ResourceCreate3D) -> (r: Step)
        requires
            old(self)@.wf(),
            old(self)@.has_room(),
        ensures
            (final(self)@, r@) == old(self)@.renderer_reply(
                Stage::Create3d { resource_id, create },
                BulkView::none(),
                Ok(()),
            ),
            final(self)@.wf(),
    {
        self.resource_created_3d(resource_id, create);
        self.journal_mut().resource_create_3d(
            resource_id,
            create.target,
            create.format,
            create.bind,
            create.width,
            create.height,
            create.depth,
            create.array_size,
            create.last_level,
            create.nr_samples,
            create.flags,
        );
        Step::ask(Request::Query { resource_id }, Stage::Queried)
    }

    fn context_reply(&mut self, stage: Stage, data: Bulk) -> (r: Step)
        requires
            old(self)@.wf(),
            old(self)@.has_room(),
            stage is CreateContext || stage is DestroyContext || stage is AttachResource
                || stage is DetachResource,
        ensures
            (final(self)@, r@) == old(self)@.renderer_reply(stage, data@, Ok(())),
            final(self)@.wf(),
    {
        match stage {
            Stage::CreateContext { ctx_id, context_init } => {
                self.context_created(context_init);
                self.journal_mut().ctx_create(ctx_id, context_init, data.name);
            },
            Stage::DestroyContext { ctx_id } => {
                self.journal_mut().ctx_destroy(ctx_id);
            },
            Stage::AttachResource { ctx_id, resource_id } => {
                self.journal_mut().ctx_attach_resource(ctx_id, resource_id);
            },
            Stage::DetachResource { ctx_id, resource_id } => {
                self.journal_mut().ctx_detach_resource(ctx_id, resource_id);
            },
            _ => {},
        }
        Step::ok()
    }

    fn renderer_reply(&mut self, stage: Stage, data: Bulk, result: Result<(), RendererError>) -> (r:
        Step)
        requires
            old(self)@.wf(),
            old(self)@.has_room(),
        ensures
            (final(self)@, r@) == old(self)@.renderer_reply(stage, data@, result),
            final(self)@.wf(),
            final(self)@.goes_on(r@),
    {
        if let Err(e) = result {
            return Step::refused(GpuResponse::ErrRutabaga(e));
        }
        match stage {
            Stage::UnrefUnmap { resource_id } => Step::ask(
                Request::Unref { resource_id },
                Stage::Unref { resource_id },
            ),
            Stage::Unref { resource_id } => self.unref_done(resource_id),
            Stage::AttachBacking { resource_id } => {
                self.journal_mut().attach_backing(resource_id, data.ranges);
                Step::ok()
            },
            Stage::DetachBacking { resource_id } => {
                self.journal_mut().detach_backing(resource_id);
                Step::ok()
            },
            Stage::CreateContext { .. } => self.context_reply(stage, data),
            Stage::DestroyContext { .. } => self.context_reply(stage, data),
            Stage::AttachResource { .. } => self.context_reply(stage, data),
            Stage::DetachResource { .. } => self.context_reply(stage, data),
            Stage::Create3d { resource_id, create } => self.resource_made_3d(resource_id, create),
            Stage::CreateBlob { ctx_id, resource_id, create } => {
                self.resource_created_blob(ctx_id, resource_id, create);
                Step::ask_with(
                    Request::JournalSeq { ctx_id },
                    Stage::BlobSeq { ctx_id, resource_id, create },
                    Bulk::of_ranges(data.ranges),
                )
            },
            _ => Step::ok(),
        }
    }

    /// Hands a context the commands in the payload, with the fences that they wait for. An empty
    /// payload is accepted.
    pub fn submit_command(&mut self, ctx_id: u32, size: u32, fences: u32, payload: &[u8]) -> (r: Step)
        requires
            old(self)@.wf(),
        ensures
            (final(self)@, r@) == old(self)@.cmd_submit(ctx_id, size, fences, payload@),
            final(self)@.wf(),
    {
        self.journal_mut().count_submit();
        if payload.len() == 0 {
            return Step::ok();
        }
        match read_submission(payload, fences, size) {
            Ok((ids, bytes)) => if self.has_renderer() {
                Step::ask_with(
                    Request::Submit { ctx_id },
                    Stage::Verdict,
                    Bulk { bytes, ranges: Vec::new(), ids, name: None },
                )
            } else {
                Step::refused(GpuResponse::ErrUnspec)
            },
            Err(e) => Step::refused(e),
        }
    }

    fn cmd_create_blob(
        &self,
        ctx_id: u32,
        resource_id: u32,
        create: ResourceCreateBlob,
        nr_entries: u32,
        payload: &[u8],
    ) -> (r: Step)
        requires
            payload::mem_entries(payload@, nr_entries) is Some ==> create.blob_flags
                & VIRTIO_GPU_BLOB_FLAG_CREATE_GUEST_HANDLE == 0,
        ensures
            r@ == self@.cmd_create_blob(
                ctx_id,
                resource_id,
                create,
                payload::mem_entries(payload@, nr_entries),
            ),
    {
        match read_mem_entries(payload, nr_entries) {
            Some(ranges) => self.resource_create_blob(ctx_id, resource_id, create, ranges),
            None => Step::refused(GpuResponse::ErrUnspec),
        }
    }

    /// Makes a blob, backed by guest memory unless it lives in the renderer only.
    pub fn resource_create_blob(
        &self,
        ctx_id: u32,
        resource_id: u32,
        create: ResourceCreateBlob,
        ranges: Vec<(u64, usize)>,
    ) -> (r: Step)
        requires
            create.blob_flags & VIRTIO_GPU_BLOB_FLAG_CREATE_GUEST_HANDLE == 0,
        ensures
            r@ == self@.cmd_create_blob(ctx_id, resource_id, create, Some(ranges@)),
    {
        if Self::blob_takes_backing(&create) {
            Step::ask_with(
                Request::CheckGuest,
                Stage::CheckBlob { ctx_id, resource_id, create },
                Bulk::of_ranges(ranges),
            )
        } else {
            self.ask_create_blob(ctx_id, resource_id, create, ranges, false)
        }
    }

    fn ask_create_blob(
        &self,
        ctx_id: u32,
        resource_id: u32,
        create: ResourceCreateBlob,
        ranges: Vec<(u64, usize)>,
        backed: bool,
    ) -> (r: Step)
        ensures
            r@ == self@.ask_create_blob(ctx_id, resource_id, create, ranges@, backed),
    {
        if self.has_renderer() {
            Step::ask_with(
                Request::CreateBlob { ctx_id, resource_id, create, backed },
                Stage::CreateBlob { ctx_id, resource_id, create },
                Bulk::of_ranges(ranges),
            )
        } else {
            Step::refused(GpuResponse::ErrUnspec)
        }
    }

    fn blob_journaled(
        &mut self,
        ctx_id: u32,
        resource_id: u32,
        create: ResourceCreateBlob,
        ranges: Vec<(u64, usize)>,
        vkr_seq: u64,
    ) -> (r: Step)
        requires
            old(self)@.wf(),
            old(self)@.has_room(),
        ensures
            (final(self)@, r@) == old(self)@.blob_journaled(
                ctx_id,
                resource_id,
                create,
                ranges@,
                vkr_seq,
            ),
            final(self)@.wf(),
    {
        self.journal_mut().create_blob(
            ctx_id,
            resource_id,
            create.blob_mem,
            create.blob_flags,
            create.blob_id,
            create.size,
            ranges,
            vkr_seq,
        );
        Step::ask(Request::Query { resource_id }, Stage::Queried)
    }

    /// Maps a blob into the guest's window.
    pub fn resource_map_blob(&self, resource_id: u32, offset: u64) -> (r: Step)
        ensures
            r@ == self@.cmd_map_blob(resource_id, offset),
            self@.goes_on(r@),
    {
        if self.resource(resource_id).is_none() {
            return Step::refused(GpuResponse::ErrInvalidResourceId);
        }
        self.ask_renderer(Request::MapInfo { resource_id }, Stage::MapInfo { resource_id, offset })
    }

    /// Takes a blob out of the guest's window.
    pub fn resource_unmap_blob(&self, resource_id: u32) -> (r: Step)
        requires
            self@.wf(),
        ensures
            r@ == self@.cmd_unmap_blob(resource_id),
            self@.goes_on(r@),
    {
        match self.mapping(resource_id) {
            Ok((guest_addr, size)) => Step::ask(
                Request::RemoveMapping { guest_addr, size },
                Stage::RemoveMapping { resource_id },
            ),
            Err(e) => Step::refused(e),
        }
    }

    fn map_reply(&mut self, stage: Stage, reply: Reply) -> (r: Step)
        requires
            old(self)@.wf(),
            old(self)@.has_room(),
            old(self)@.awaits(stage),
        ensures
            (final(self)@, r@) == old(self)@.map_reply(stage, reply@),
            final(self)@.wf(),
            final(self)@.goes_on(r@),
    {
        match (stage, reply) {
            (Stage::MapInfo { resource_id, offset }, Reply::Number(Some(info))) => Step::ask(
                Request::MapPtr { resource_id },
                Stage::MapPtr { resource_id, offset, map_info: info as u32 },
            ),
            (
                Stage::MapPtr { resource_id, offset, map_info },
                Reply::Number(Some(host_addr)),
            ) => match self.resource(resource_id) {
                Some(resource) => match self.map_addr(&resource, offset) {
                    Some(guest_addr) => Step::ask(
                        Request::AddMapping { host_addr, guest_addr, size: resource.size },
                        Stage::AddMapping { resource_id, offset, map_info },
                    ),
                    None => Step::refused(GpuResponse::ErrUnspec),
                },
                None => Step::refused(GpuResponse::ErrUnspec),
            },
            (Stage::AddMapping { resource_id, offset, map_info }, Reply::Done(true)) => {
                self.set_mapping(resource_id, Some(offset));
                self.journal_mut().map_blob(resource_id, offset);
                Step::Done(Ok(GpuResponse::OkMapInfo { map_info: map_info & MAP_CACHE_MASK }))
            },
            (Stage::RemoveMapping { resource_id }, Reply::Done(true)) => {
                self.set_mapping(resource_id, None);
                self.journal_mut().unmap_blob(resource_id);
                Step::ok()
            },
            _ => Step::refused(GpuResponse::ErrUnspec),
        }
    }

    fn plain_reply(stage: Stage, reply: Reply) -> (r: Step)
        ensures
            r@ == GpuView::plain_reply(stage, reply@),
    {
        match (stage, reply) {
            (Stage::Settled, _) => Step::ok(),
            (Stage::Queried, Reply::Query(q)) => Step::Done(Ok(Self::result_from_query(q))),
            (Stage::Edid, Reply::Bytes(Ok(b))) => Step::Done(Ok(GpuResponse::OkEdid(b))),
            (Stage::CapsetInfo, Reply::CapsetInfo(r)) => match r {
                Ok((capset_id, version, size)) => Step::Done(
                    Ok(GpuResponse::OkCapsetInfo { capset_id, version, size }),
                ),
                Err(e) => Step::refused(GpuResponse::ErrRutabaga(e)),
            },
            (Stage::Capset, Reply::Bytes(r)) => match r {
                Ok(b) => Step::Done(Ok(GpuResponse::OkCapset(b))),
                Err(e) => Step::refused(GpuResponse::ErrRutabaga(e)),
            },
            _ => Step::refused(GpuResponse::ErrUnspec),
        }
    }

    /// Takes up a command: its answer, or what has to be asked first. `armed` says whether blob
    /// frames wait for the rendering behind them.
    pub fn process_gpu_command(
        &mut self,
        ctx_id: u32,
        cmd: &GpuCommand,
        payload: &[u8],
        armed: bool,
    ) -> (r: Step)
        requires
            old(self)@.wf(),
            old(self)@.has_room(),
            cmd.answerable(payload@),
        ensures
            (final(self)@, r@) == old(self)@.begin(ctx_id, *cmd, payload@, armed),
            final(self)@.wf(),
            final(self)@.goes_on(r@),
    {
        match *cmd {
            GpuCommand::GetDisplayInfo => Step::Done(self.display_info()),
            GpuCommand::GetEdid { scanout } => self.get_edid(scanout),
            GpuCommand::ResourceCreate2d { resource_id, format, width, height } => {
                self.cmd_create_2d(resource_id, format, width, height)
            },
            GpuCommand::ResourceUnref { resource_id } => self.cmd_unref(resource_id),
            GpuCommand::SetScanout { scanout_id, resource_id, width, height } => self.cmd_scanout(
                Binding { scanout_id, resource_id, width, height, format: None },
            ),
            GpuCommand::ResourceFlush { resource_id, rect } => self.flush_resource(
                resource_id,
                rect,
                armed,
            ),
            GpuCommand::TransferToHost2d { resource_id, rect } => self.transfer_write(
                0,
                resource_id,
                Transfer3D {
                    x: rect.x,
                    y: rect.y,
                    z: 0,
                    w: rect.width,
                    h: rect.height,
                    d: 1,
                    level: 0,
                    stride: 0,
                    layer_stride: 0,
                    offset: 0,
                },
            ),
            GpuCommand::ResourceAttachBacking { resource_id, nr_entries } => {
                if payload.len() == 0 {
                    return Step::refused(GpuResponse::ErrUnspec);
                }
                match read_mem_entries(payload, nr_entries) {
                    Some(ranges) => Self::attach_backing(resource_id, ranges),
                    None => Step::refused(GpuResponse::ErrUnspec),
                }
            },
            GpuCommand::ResourceDetachBacking { resource_id } => self.detach_backing(
                resource_id,
            ),
            GpuCommand::UpdateCursor { scanout_id, resource_id, hot_x, hot_y, x, y } => {
                self.update_cursor(scanout_id, resource_id, hot_x, hot_y, x, y)
            },
            GpuCommand::MoveCursor { x, y } => Self::move_cursor(x, y),
            GpuCommand::ResourceAssignUuid { resource_id } => Step::Done(
                self.resource_assign_uuid(resource_id),
            ),
            GpuCommand::GetCapsetInfo { capset_index } => self.get_capset_info(capset_index),
            GpuCommand::GetCapset { capset_id, capset_version } => self.get_capset(
                capset_id,
                capset_version,
            ),
            GpuCommand::CtxCreate { context_init, debug_name } => self.create_context(
                ctx_id,
                context_init,
                &debug_name,
            ),
            GpuCommand::CtxDestroy => self.destroy_context(ctx_id),
            GpuCommand::CtxAttachResource { resource_id } => self.context_attach_resource(
                ctx_id,
                resource_id,
            ),
            GpuCommand::CtxDetachResource { resource_id } => self.context_detach_resource(
                ctx_id,
                resource_id,
            ),
            GpuCommand::ResourceCreate3d { resource_id, create } => self.resource_create_3d(
                resource_id,
                create,
            ),
            GpuCommand::TransferToHost3d { resource_id, transfer } => self.transfer_write(
                ctx_id,
                resource_id,
                transfer,
            ),
            GpuCommand::TransferFromHost3d { resource_id, transfer } => self.transfer_read(
                ctx_id,
                resource_id,
                transfer,
            ),
            GpuCommand::CmdSubmit3d { size, num_in_fences } => self.submit_command(
                ctx_id,
                size,
                num_in_fences,
                payload,
            ),
            GpuCommand::ResourceCreateBlob { resource_id, create, nr_entries } => {
                self.cmd_create_blob(ctx_id, resource_id, create, nr_entries, payload)
            },
            GpuCommand::SetScanoutBlob { scanout_id, resource_id, width, height, format } => {
                self.cmd_scanout(
                    Binding { scanout_id, resource_id, width, height, format: Some(format) },
                )
            },
            GpuCommand::ResourceMapBlob { resource_id, offset } => self.resource_map_blob(
                resource_id,
                offset,
            ),
            GpuCommand::ResourceUnmapBlob { resource_id } => self.resource_unmap_blob(resource_id),
        }
    }

    /// Goes on with a command when the answer to its request is there.
    pub fn resume_gpu_command(&mut self, stage: Stage, data: Bulk, reply: Reply) -> (r: Step)
        requires
            old(self)@.wf(),
            old(self)@.has_room(),
            old(self)@.awaits(stage),
        ensures
            (final(self)@, r@) == old(self)@.resume(stage, data@, reply@),
            final(self)@.wf(),
            final(self)@.goes_on(r@),
    {
        match (stage, reply) {
            (Stage::Flush { flush, scanout_id, at }, reply) => self.flush_reply(
                flush,
                scanout_id,
                at,
                reply,
            ),
            (Stage::ScanoutOff { .. }, reply) => self.scanout_reply(stage, reply),
            (Stage::ScanoutOn { .. }, reply) => self.scanout_reply(stage, reply),
            (Stage::ScanoutSurface { .. }, reply) => self.scanout_reply(stage, reply),
            (Stage::MapInfo { .. }, reply) => self.map_reply(stage, reply),
            (Stage::MapPtr { .. }, reply) => self.map_reply(stage, reply),
            (Stage::AddMapping { .. }, reply) => self.map_reply(stage, reply),
            (Stage::RemoveMapping { .. }, reply) => self.map_reply(stage, reply),
            (Stage::Gather { resource_id }, Reply::Bytes(Ok(bytes))) => {
                self.sw2d_fill(resource_id, bytes.as_slice());
                Step::ok()
            },
            (Stage::CheckBacking { resource_id }, Reply::Done(there)) => self.backing_checked(
                resource_id,
                data.ranges,
                there,
            ),
            (Stage::CheckBlob { ctx_id, resource_id, create }, Reply::Done(there)) => if there {
                self.ask_create_blob(ctx_id, resource_id, create, data.ranges, true)
            } else {
                Step::refused(GpuResponse::ErrUnspec)
            },
            (Stage::BlobSeq { ctx_id, resource_id, create }, Reply::Number(seq)) => {
                let vkr_seq: u64 = match seq {
                    Some(seq) => seq,
                    None => 0,
                };
                self.blob_journaled(ctx_id, resource_id, create, data.ranges, vkr_seq)
            },
            (Stage::HideCursor, Reply::Display(r)) => self.cursor_reply(stage, data, r),
            (Stage::SetCursor { .. }, Reply::Display(r)) => self.cursor_reply(stage, data, r),
            (Stage::PlaceCursor { .. }, Reply::Display(r)) => self.cursor_reply(stage, data, r),
            (Stage::MoveCursor { .. }, Reply::Display(r)) => self.cursor_reply(stage, data, r),
            (_, Reply::Renderer(r)) => self.renderer_reply(stage, data, r),
            (_, reply) => Self::plain_reply(stage, reply),
        }
    }
}

impl GpuView {
    /// An op of a restored journal, carried out like the command that it was.
    pub open spec fn replay_op(self, op: GpuJournalOpView) -> (Self, StepView) {
        match op {
            GpuJournalOpView::CtxCreate { ctx_id, context_init, name } => (
                self,
                if self.renderer {
                    StepView::Ask {
                        request: Request::CreateContext { ctx_id, context_init },
                        stage: Stage::CreateContext { ctx_id, context_init },
                        data: BulkView { name, ..BulkView::none() },
                    }
                } else {
                    StepView::refused(GpuResponseView::ErrUnspec)
                },
            ),
            GpuJournalOpView::CtxAttachResource { ctx_id, resource_id, .. } => (
                self,
                self.ask_renderer(
                    Request::AttachResource { ctx_id, resource_id },
                    Stage::AttachResource { ctx_id, resource_id },
                ),
            ),
            GpuJournalOpView::CreateBlob {
                ctx_id,
                resource_id,
                blob_mem,
                blob_flags,
                blob_id,
                size,
                backing,
            } => (
                self,
                self.cmd_create_blob(
                    ctx_id,
                    resource_id,
                    ResourceCreateBlob { blob_mem, blob_flags, blob_id, size },
                    Some(backing),
                ),
            ),
            GpuJournalOpView::MapBlob { resource_id, offset } => (
                self,
                self.cmd_map_blob(resource_id, offset),
            ),
            GpuJournalOpView::SetScanoutBlob {
                scanout_id,
                resource_id,
                width,
                height,
                format,
            } => self.cmd_scanout(
                Binding { scanout_id, resource_id, width, height, format: Some(format) },
            ),
            GpuJournalOpView::ResourceCreate3d {
                resource_id,
                target,
                format,
                bind,
                width,
                height,
                depth,
                array_size,
                last_level,
                nr_samples,
                flags,
            } => {
                let create = ResourceCreate3D {
                    target,
                    format,
                    bind,
                    width,
                    height,
                    depth,
                    array_size,
                    last_level,
                    nr_samples,
                    flags,
                };
                (
                    self,
                    self.ask_renderer(
                        Request::CreateResource3d { resource_id, create },
                        Stage::Create3d { resource_id, create },
                    ),
                )
            },
            GpuJournalOpView::ResourceCreate2d {
                resource_id,
                format,
                width,
                height,
            } => self.cmd_create_2d(resource_id, format, width, height),
            GpuJournalOpView::AttachBacking { resource_id, backing } => (
                self,
                StepView::Ask {
                    request: Request::CheckGuest,
                    stage: Stage::CheckBacking { resource_id },
                    data: BulkView { ranges: backing, ..BulkView::none() },
                },
            ),
            GpuJournalOpView::SetScanout {
                scanout_id,
                resource_id,
                width,
                height,
            } => self.cmd_scanout(
                Binding { scanout_id, resource_id, width, height, format: None },
            ),
        }
    }
}

/// The device has an answer to the op: see `GpuCommand::answerable`.
pub open spec fn op_answerable(op: GpuJournalOpView) -> bool {
    match op {
        GpuJournalOpView::ResourceCreate2d { format, width, height, .. } => {
            let len = width * height * BYTES_PER_PIXEL;
            ResourceFormat::of_code(format) is Some ==> len <= isize::MAX || len > usize::MAX
        },
        GpuJournalOpView::CreateBlob { blob_flags, .. } => blob_flags
            & VIRTIO_GPU_BLOB_FLAG_CREATE_GUEST_HANDLE == 0,
        _ => true,
    }
}

/// Whether the device has an answer to an op of a restored journal.
pub fn is_op_answerable(op: &GpuJournalOp) -> (r: bool)
    ensures
        r == op_answerable(op@),
{
    match op {
        GpuJournalOp::ResourceCreate2d { format, width, height, .. } => picture_answerable(
            *format,
            *width,
            *height,
        ),
        GpuJournalOp::CreateBlob { blob_flags, .. } => *blob_flags
            & VIRTIO_GPU_BLOB_FLAG_CREATE_GUEST_HANDLE == 0,
        _ => true,
    }
}

impl VirtioGpu {
    /// Carries out an op of a restored journal like the command that it was: its answer, or what
    /// has to be asked first.
    pub fn replay_op(&mut self, op: &GpuJournalOp) -> (r: Step)
        requires
            old(self)@.wf(),
            old(self)@.has_room(),
            op_answerable(op@),
        ensures
            (final(self)@, r@) == old(self)@.replay_op(op@),
            final(self)@.wf(),
            final(self)@.goes_on(r@),
    {
        match op {
            GpuJournalOp::CtxCreate { ctx_id, context_init, name } => {
                if !self.has_renderer() {
                    return Step::refused(GpuResponse::ErrUnspec);
                }
                let text: Option<String> = match name {
                    Some(n) => Some(n.as_str().to_owned()),
                    None => None,
                };
                Step::ask_with(
                    Request::CreateContext { ctx_id: *ctx_id, context_init: *context_init },
                    Stage::CreateContext { ctx_id: *ctx_id, context_init: *context_init },
                    Bulk { bytes: Vec::new(), ranges: Vec::new(), ids: Vec::new(), name: text },
                )
            },
            GpuJournalOp::CtxAttachResource {
                ctx_id,
                resource_id,
                ..
            } => self.context_attach_resource(*ctx_id, *resource_id),
            GpuJournalOp::CreateBlob {
                ctx_id,
                resource_id,
                blob_mem,
                blob_flags,
                blob_id,
                size,
                backing,
            } => self.resource_create_blob(
                *ctx_id,
                *resource_id,
                ResourceCreateBlob {
                    blob_mem: *blob_mem,
                    blob_flags: *blob_flags,
                    blob_id: *blob_id,
                    size: *size,
                },
                copy_ranges(backing),
            ),
            GpuJournalOp::MapBlob { resource_id, offset } => self.resource_map_blob(
                *resource_id,
                *offset,
            ),
            GpuJournalOp::SetScanoutBlob {
                scanout_id,
                resource_id,
                width,
                height,
                format,
            } => self.cmd_scanout(
                Binding {
                    scanout_id: *scanout_id,
                    resource_id: *resource_id,
                    width: *width,
                    height: *height,
                    format: Some(*format),
                },
            ),
            GpuJournalOp::ResourceCreate3d {
                resource_id,
                target,
                format,
                bind,
                width,
                height,
                depth,
                array_size,
                last_level,
                nr_samples,
                flags,
            } => {
                let create = ResourceCreate3D {
                    target: *target,
                    format: *format,
                    bind: *bind,
                    width: *width,
                    height: *height,
                    depth: *depth,
                    array_size: *array_size,
                    last_level: *last_level,
                    nr_samples: *nr_samples,
                    flags: *flags,
                };
                self.resource_create_3d(*resource_id, create)
            },
            GpuJournalOp::ResourceCreate2d {
                resource_id,
                format,
                width,
                height,
            } => self.cmd_create_2d(*resource_id, *format, *width, *height),
            GpuJournalOp::AttachBacking { resource_id, backing } => Self::attach_backing(
                *resource_id,
                copy_ranges(backing),
            ),
            GpuJournalOp::SetScanout {
                scanout_id,
                resource_id,
                width,
                height,
            } => self.cmd_scanout(
                Binding {
                    scanout_id: *scanout_id,
                    resource_id: *resource_id,
                    width: *width,
                    height: *height,
                    format: None,
                },
            ),
        }
    }
}

} // verus!
