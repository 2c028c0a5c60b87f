//! RESOURCE_FLUSH: every scanout that shows the resource gets its frame, one after another.
//!
//! A scanout with a surface presents it, without a copy. A frame of a blob may be parked until the
//! rendering behind it completes. Where the display takes no surfaces, and for scanouts without
//! one, the pixels are read back into a frame of the display's.
use crate::gpu::fence::RendererFence;
use crate::gpu::present::{ParkedFlush, Rect};
use crate::gpu::protocol::{
    DisplayError, GpuResponse, GpuResponseView, VIRTIO_GPU_FLAG_FENCE,
    VIRTIO_GPU_FLAG_INFO_RING_IDX, VIRTIO_GPU_MAX_SCANOUTS,
};
use crate::gpu::fence::PRESENT_RING;
use crate::gpu::scanout::AssociatedScanouts;
use crate::gpu::step::{Flush, FlushAt, Reply, ReplyView, Request, Stage, Step, StepView};
use crate::gpu::virtio_gpu::{GpuView, Transfer3D, VirtioGpu};
use vstd::prelude::*;

verus! {

/// The first enabled scanout at or after `from`.
pub open spec fn next_enabled(scanouts: AssociatedScanouts, from: u32) -> Option<u32>
    decreases VIRTIO_GPU_MAX_SCANOUTS - from,
{
    if from >= VIRTIO_GPU_MAX_SCANOUTS {
        None
    } else if scanouts.has(from) {
        Some(from)
    } else {
        next_enabled(scanouts, (from + 1) as u32)
    }
}

fn first_enabled(scanouts: AssociatedScanouts, from: u32) -> (r: Option<u32>)
    ensures
        r == next_enabled(scanouts, from),
        r matches Some(s) ==> s < VIRTIO_GPU_MAX_SCANOUTS,
{
    let mut i: u32 = from;
    while i < VIRTIO_GPU_MAX_SCANOUTS
        invariant
            next_enabled(scanouts, from) == next_enabled(scanouts, i),
        decreases VIRTIO_GPU_MAX_SCANOUTS - i,
    {
        if (scanouts.0 >> i) & 1 == 1 {
            return Some(i);
        }
        i = i + 1;
    }
    None
}

/// The part of a resource that a scanout of this size reads back, tightly packed.
pub open spec fn readback_box(width: u32, height: u32) -> Transfer3D {
    Transfer3D {
        x: 0,
        y: 0,
        z: 0,
        w: width,
        h: height,
        d: 1,
        level: 0,
        stride: width.wrapping_mul(4),
        layer_stride: 0,
        offset: 0,
    }
}

impl GpuView {
    /// The flush goes on with the first enabled scanout at or after `from`.
    pub open spec fn flush_from(self, flush: Flush, from: u32) -> (Self, StepView) {
        match next_enabled(flush.resource.scanouts, from) {
            Some(s) => self.flush_scanout(flush, s),
            None => (self, StepView::ok()),
        }
    }

    /// The frame that a scanout's surface holds.
    pub open spec fn parked_frame(flush: Flush, scanout_id: u32, iosurface_id: u32) -> ParkedFlush {
        ParkedFlush {
            scanout_id,
            iosurface_id,
            resource_id: flush.resource_id,
            rect: flush.rect,
        }
    }

    /// One scanout's first request.
    pub open spec fn flush_scanout(self, flush: Flush, scanout_id: u32) -> (Self, StepView) {
        match self.scanouts[scanout_id as int] {
            Some(sc) => match sc.iosurface_id {
                Some(id) => if flush.resource.ctx_id == 0 {
                    if self.renderer {
                        (
                            self,
                            StepView::ask(
                                Request::SyncSurface { resource_id: flush.resource_id },
                                Stage::Flush {
                                    flush,
                                    scanout_id,
                                    at: FlushAt::Sync { iosurface_id: id },
                                },
                            ),
                        )
                    } else {
                        (self.forget_surface(scanout_id), Self::flush_alloc(flush, scanout_id))
                    }
                } else {
                    match self.present {
                        Some(p) if flush.armed => (
                            GpuView {
                                present: Some(
                                    p.park(Self::parked_frame(flush, scanout_id, id)),
                                ),
                                ..self
                            },
                            StepView::ask(
                                Request::CreateFence {
                                    fence: RendererFence {
                                        flags: VIRTIO_GPU_FLAG_FENCE
                                            | VIRTIO_GPU_FLAG_INFO_RING_IDX,
                                        fence_id: p.next_cookie as u64,
                                        ctx_id: flush.resource.ctx_id,
                                        ring_idx: PRESENT_RING,
                                    },
                                },
                                Stage::Flush {
                                    flush,
                                    scanout_id,
                                    at: FlushAt::Fence {
                                        iosurface_id: id,
                                        cookie: p.next_cookie as u64,
                                    },
                                },
                            ),
                        ),
                        _ => (self, Self::flush_surface(flush, scanout_id, id)),
                    }
                },
                None => (self, Self::flush_alloc(flush, scanout_id)),
            },
            None => (self, Self::flush_alloc(flush, scanout_id)),
        }
    }

    /// The surface goes to the display.
    pub open spec fn flush_surface(flush: Flush, scanout_id: u32, iosurface_id: u32) -> StepView {
        StepView::ask(
            Request::PresentSurface { scanout_id, iosurface_id, rect: flush.rect },
            Stage::Flush { flush, scanout_id, at: FlushAt::Surface },
        )
    }

    /// The pixels are read back into a frame.
    pub open spec fn flush_alloc(flush: Flush, scanout_id: u32) -> StepView {
        StepView::ask(
            Request::AllocFrame { scanout_id },
            Stage::Flush { flush, scanout_id, at: FlushAt::Alloc },
        )
    }

    /// Where the frame's pixels come from. Without a renderer only software-2D resources have any.
    pub open spec fn flush_fill(self, flush: Flush, scanout_id: u32) -> StepView {
        let (w, h) = self.scan_size(scanout_id, flush.resource);
        let stage = Stage::Flush { flush, scanout_id, at: FlushAt::Fill };
        let surface = match self.scanouts[scanout_id as int] {
            Some(sc) => sc.iosurface_id is Some,
            None => false,
        };
        if self.sw2d.contains_key(flush.resource_id) {
            StepView::ask(
                Request::FillFromSoftware {
                    resource_id: flush.resource_id,
                    src_w: flush.resource.width,
                    scan_w: w,
                    scan_h: h,
                },
                stage,
            )
        } else if !self.renderer {
            StepView::refused(GpuResponseView::ErrUnspec)
        } else if surface {
            StepView::ask(
                Request::FillFromSurface {
                    resource_id: flush.resource_id,
                    stride: w.wrapping_mul(4),
                    rows: h,
                },
                stage,
            )
        } else {
            StepView::ask(
                Request::FillFromResource {
                    resource_id: flush.resource_id,
                    transfer: readback_box(w, h),
                },
                stage,
            )
        }
    }

    /// The flush goes on with an answer. A surface that cannot be brought up to date is given up;
    /// a frame whose fence is refused is not parked and presents at once; a display that takes no
    /// surfaces gets a frame.
    pub open spec fn flush_reply(
        self,
        flush: Flush,
        scanout_id: u32,
        at: FlushAt,
        reply: ReplyView,
    ) -> (Self, StepView) {
        match (at, reply) {
            (FlushAt::Sync { iosurface_id }, ReplyView::Renderer(r)) => match r {
                Ok(()) => (self, Self::flush_surface(flush, scanout_id, iosurface_id)),
                Err(_) => (self.forget_surface(scanout_id), Self::flush_alloc(flush, scanout_id)),
            },
            (FlushAt::Fence { iosurface_id, cookie }, ReplyView::Renderer(r)) => match r {
                Ok(()) => self.flush_from(flush, (scanout_id + 1) as u32),
                Err(_) => (
                    GpuView {
                        present: match self.present {
                            Some(p) => Some(p.unpark(cookie)),
                            None => None,
                        },
                        ..self
                    },
                    Self::flush_surface(flush, scanout_id, iosurface_id),
                ),
            },
            (FlushAt::Surface, ReplyView::Display(r)) => match r {
                Ok(()) => self.flush_from(flush, (scanout_id + 1) as u32),
                Err(DisplayError::MethodNotSupported) => (
                    self,
                    Self::flush_alloc(flush, scanout_id),
                ),
                Err(_) => (self, StepView::refused(GpuResponseView::ErrUnspec)),
            },
            (FlushAt::Alloc, ReplyView::Display(r)) => match r {
                Ok(()) => (self, self.flush_fill(flush, scanout_id)),
                Err(e) => (self, StepView::refused(GpuResponseView::ErrDisplay(e))),
            },
            (FlushAt::Fill, ReplyView::Done(done)) => if done {
                (
                    self,
                    StepView::ask(
                        Request::PresentFrame { scanout_id, rect: flush.rect },
                        Stage::Flush { flush, scanout_id, at: FlushAt::Present },
                    ),
                )
            } else {
                (self, StepView::refused(GpuResponseView::ErrUnspec))
            },
            (FlushAt::Present, ReplyView::Display(r)) => match r {
                Ok(()) => self.flush_from(flush, (scanout_id + 1) as u32),
                Err(e) => (self, StepView::refused(GpuResponseView::ErrDisplay(e))),
            },
            _ => (self, StepView::refused(GpuResponseView::ErrUnspec)),
        }
    }

    /// A flush command's first step. Resource 0 is flushed without doing anything.
    pub open spec fn flush_resource(self, resource_id: u32, rect: Rect, armed: bool) -> (
        Self,
        StepView,
    ) {
        let fresh = self.begin_flush();
        if resource_id == 0 {
            (fresh, StepView::ok())
        } else if !self.resources.contains_key(resource_id) {
            (fresh, StepView::refused(GpuResponseView::ErrInvalidResourceId))
        } else {
            fresh.flush_from(
                Flush { resource_id, rect, resource: self.resources[resource_id], armed },
                0,
            )
        }
    }
}

impl VirtioGpu {
    /// Flushes a resource to the scanouts that show it. `armed` says whether blob frames are
    /// parked until the rendering behind them completes.
    pub fn flush_resource(&mut self, resource_id: u32, rect: Rect, armed: bool) -> (r: Step)
        requires
            old(self)@.wf(),
            old(self)@.has_room(),
        ensures
            (final(self)@, r@) == old(self)@.flush_resource(resource_id, rect, armed),
            final(self)@.wf(),
            flush_in_range(r@),
    {
        self.begin_flush();
        if resource_id == 0 {
            return Step::ok();
        }
        match self.resource(resource_id) {
            Some(resource) => self.flush_from(Flush { resource_id, rect, resource, armed }, 0),
            None => Step::refused(GpuResponse::ErrInvalidResourceId),
        }
    }

    fn flush_from(&mut self, flush: Flush, from: u32) -> (r: Step)
        requires
            old(self)@.wf(),
            old(self)@.has_room(),
        ensures
            (final(self)@, r@) == old(self)@.flush_from(flush, from),
            final(self)@.wf(),
            flush_in_range(r@),
    {
        match first_enabled(flush.resource.scanouts, from) {
            Some(s) => self.flush_scanout(flush, s),
            None => Step::ok(),
        }
    }

    fn flush_scanout(&mut self, flush: Flush, scanout_id: u32) -> (r: Step)
        requires
            old(self)@.wf(),
            old(self)@.has_room(),
            scanout_id < VIRTIO_GPU_MAX_SCANOUTS,
        ensures
            (final(self)@, r@) == old(self)@.flush_scanout(flush, scanout_id),
            final(self)@.wf(),
            flush_in_range(r@),
    {
        let surface: Option<u32> = match self.scanout(scanout_id) {
            Some(sc) => sc.iosurface_id,
            None => None,
        };
        match surface {
            Some(iosurface_id) => {
                if flush.resource.ctx_id == 0 {
                    if self.has_renderer() {
                        return Step::ask(
                            Request::SyncSurface { resource_id: flush.resource_id },
                            Stage::Flush {
                                flush,
                                scanout_id,
                                at: FlushAt::Sync { iosurface_id },
                            },
                        );
                    }
                    self.forget_surface(scanout_id);
                    return Self::flush_alloc(flush, scanout_id);
                }
                if flush.armed {
                    let frame = ParkedFlush {
                        scanout_id,
                        iosurface_id,
                        resource_id: flush.resource_id,
                        rect: flush.rect,
                    };
                    if let Some(fence) = self.park_frame(frame, flush.resource.ctx_id) {
                        return Step::ask(
                            Request::CreateFence { fence },
                            Stage::Flush {
                                flush,
                                scanout_id,
                                at: FlushAt::Fence { iosurface_id, cookie: fence.fence_id },
                            },
                        );
                    }
                }
                Self::flush_surface(flush, scanout_id, iosurface_id)
            },
            None => Self::flush_alloc(flush, scanout_id),
        }
    }

    fn flush_surface(flush: Flush, scanout_id: u32, iosurface_id: u32) -> (r: Step)
        requires
            scanout_id < VIRTIO_GPU_MAX_SCANOUTS,
        ensures
            r@ == GpuView::flush_surface(flush, scanout_id, iosurface_id),
            flush_in_range(r@),
    {
        Step::ask(
            Request::PresentSurface { scanout_id, iosurface_id, rect: flush.rect },
            Stage::Flush { flush, scanout_id, at: FlushAt::Surface },
        )
    }

    fn flush_alloc(flush: Flush, scanout_id: u32) -> (r: Step)
        requires
            scanout_id < VIRTIO_GPU_MAX_SCANOUTS,
        ensures
            r@ == GpuView::flush_alloc(flush, scanout_id),
            flush_in_range(r@),
    {
        Step::ask(
            Request::AllocFrame { scanout_id },
            Stage::Flush { flush, scanout_id, at: FlushAt::Alloc },
        )
    }

    fn flush_fill(&self, flush: Flush, scanout_id: u32) -> (r: Step)
        requires
            self@.wf(),
            scanout_id < VIRTIO_GPU_MAX_SCANOUTS,
        ensures
            r@ == self@.flush_fill(flush, scanout_id),
            flush_in_range(r@),
    {
        let (w, h) = self.scan_size(scanout_id, &flush.resource);
        let stage = Stage::Flush { flush, scanout_id, at: FlushAt::Fill };
        let surface: bool = match self.scanout(scanout_id) {
            Some(sc) => sc.iosurface_id.is_some(),
            None => false,
        };
        if self.has_sw2d(flush.resource_id) {
            Step::ask(
                Request::FillFromSoftware {
                    resource_id: flush.resource_id,
                    src_w: flush.resource.width,
                    scan_w: w,
                    scan_h: h,
                },
                stage,
            )
        } else if !self.has_renderer() {
            Step::refused(GpuResponse::ErrUnspec)
        } else if surface {
            Step::ask(
                Request::FillFromSurface {
                    resource_id: flush.resource_id,
                    stride: w.wrapping_mul(4),
                    rows: h,
                },
                stage,
            )
        } else {
            Step::ask(
                Request::FillFromResource {
                    resource_id: flush.resource_id,
                    transfer: Transfer3D {
                        x: 0,
                        y: 0,
                        z: 0,
                        w,
                        h,
                        d: 1,
                        level: 0,
                        stride: w.wrapping_mul(4),
                        layer_stride: 0,
                        offset: 0,
                    },
                },
                stage,
            )
        }
    }

    /// A flush goes on with an answer from the renderer or the display.
    pub fn flush_reply(
        &mut self,
        flush: Flush,
        scanout_id: u32,
        at: FlushAt,
        reply: Reply,
    ) -> (r: Step)
        requires
            old(self)@.wf(),
            old(self)@.has_room(),
            scanout_id < VIRTIO_GPU_MAX_SCANOUTS,
        ensures
            (final(self)@, r@) == old(self)@.flush_reply(flush, scanout_id, at, reply@),
            final(self)@.wf(),
            flush_in_range(r@),
    {
        match (at, reply) {
            (FlushAt::Sync { iosurface_id }, Reply::Renderer(r)) => match r {
                Ok(()) => Self::flush_surface(flush, scanout_id, iosurface_id),
                Err(_) => {
                    self.forget_surface(scanout_id);
                    Self::flush_alloc(flush, scanout_id)
                },
            },
            (FlushAt::Fence { iosurface_id, cookie }, Reply::Renderer(r)) => match r {
                Ok(()) => self.flush_from(flush, scanout_id + 1),
                Err(_) => {
                    self.unpark_frame(cookie);
                    Self::flush_surface(flush, scanout_id, iosurface_id)
                },
            },
            (FlushAt::Surface, Reply::Display(r)) => match r {
                Ok(()) => self.flush_from(flush, scanout_id + 1),
                Err(DisplayError::MethodNotSupported) => Self::flush_alloc(flush, scanout_id),
                Err(_) => Step::refused(GpuResponse::ErrUnspec),
            },
            (FlushAt::Alloc, Reply::Display(r)) => match r {
                Ok(()) => self.flush_fill(flush, scanout_id),
                Err(e) => Step::refused(GpuResponse::ErrDisplay(e)),
            },
            (FlushAt::Fill, Reply::Done(done)) => if done {
                Step::ask(
                    Request::PresentFrame { scanout_id, rect: flush.rect },
                    Stage::Flush { flush, scanout_id, at: FlushAt::Present },
                )
            } else {
                Step::refused(GpuResponse::ErrUnspec)
            },
            (FlushAt::Present, Reply::Display(r)) => match r {
                Ok(()) => self.flush_from(flush, scanout_id + 1),
                Err(e) => Step::refused(GpuResponse::ErrDisplay(e)),
            },
            _ => Step::refused(GpuResponse::ErrUnspec),
        }
    }
}

impl GpuView {
    /// What of a surface is read back for a parked frame that the display does not take as a
    /// surface: its stride and its rows. Without a renderer or a size there is nothing to read.
    pub open spec fn deferred_readback(self, scanout_id: u32) -> Option<(u32, u32)> {
        if !self.renderer || scanout_id >= VIRTIO_GPU_MAX_SCANOUTS {
            None
        } else {
            match self.scanouts[scanout_id as int] {
                Some(s) => if s.width != 0 && s.height != 0 {
                    Some((s.width.wrapping_mul(4), s.height))
                } else {
                    None
                },
                None => None,
            }
        }
    }
}

impl VirtioGpu {
    /// What of a surface is read back for a parked frame that the display does not take as a
    /// surface.
    pub fn deferred_readback(&self, scanout_id: u32) -> (r: Option<(u32, u32)>)
        requires
            self@.wf(),
        ensures
            r == self@.deferred_readback(scanout_id),
    {
        if !self.has_renderer() {
            return None;
        }
        match self.scanout(scanout_id) {
            Some(s) => if s.width != 0 && s.height != 0 {
                Some((s.width.wrapping_mul(4), s.height))
            } else {
                None
            },
            None => None,
        }
    }
}

/// A flush only waits on scanouts that there are.
pub open spec fn flush_in_range(step: StepView) -> bool {
    match step {
        StepView::Ask { stage: Stage::Flush { scanout_id, .. }, .. } => scanout_id
            < VIRTIO_GPU_MAX_SCANOUTS,
        StepView::Ask { .. } => false,
        StepView::Done(_) => true,
    }
}

} // verus!
