//! The control queue: what becomes of a descriptor once its command was carried out.
use crate::gpu::command::CtrlHdr;
use crate::gpu::fence;
use crate::gpu::fence::{
    mark_fence_completed_sync, FenceDescriptor, FenceState, RendererFence, VirtioGpuRing,
};
use crate::gpu::present::HOLD_CEILING_NS;
use crate::gpu::protocol::{
    GpuResponse, GpuResponseView, RendererError, VirtioGpuResult, VIRTIO_GPU_FLAG_FENCE,
};
use crate::gpu::trace;
use crate::gpu::trace::GpuTraceStats;
use crate::gpu::virtio_gpu::{FenceRoute, GpuView, VirtioGpu};
use vstd::prelude::*;

verus! {

/// A descriptor taken off the control queue.
#[derive(Clone, Copy, PartialEq, Eq, Structural, Debug)]
pub struct Entry {
    pub index: u16,
    /// Whether there is room for an answer.
    pub writable: bool,
    /// The command's header; `None` when what the descriptor holds is no command.
    pub hdr: Option<CtrlHdr>,
    /// Whether the command is a flush.
    pub is_flush: bool,
}

impl Entry {
    /// The fence that the guest wants behind the command. An entry without room for an answer has
    /// none.
    pub open spec fn fence_spec(self) -> Option<RendererFence> {
        match self.hdr {
            Some(h) if self.writable && h.flags & VIRTIO_GPU_FLAG_FENCE != 0 => Some(
                RendererFence {
                    flags: h.flags,
                    fence_id: h.fence_id,
                    ctx_id: h.ctx_id,
                    ring_idx: h.ring_idx,
                },
            ),
            _ => None,
        }
    }

    /// The fence that the guest wants behind the command.
    pub fn fence(&self) -> (r: Option<RendererFence>)
        ensures
            r == self.fence_spec(),
    {
        match self.hdr {
            Some(h) => if self.writable && h.flags & VIRTIO_GPU_FLAG_FENCE != 0 {
                Some(
                    RendererFence {
                        flags: h.flags,
                        fence_id: h.fence_id,
                        ctx_id: h.ctx_id,
                        ring_idx: h.ring_idx,
                    },
                )
            } else {
                None
            },
            None => None,
        }
    }
}

/// An answer on its way to the guest.
pub struct Answer {
    pub response: GpuResponse,
    /// Who completes the fence behind the command, where it has one.
    pub route: Option<FenceRoute>,
}

impl GpuView {
    /// A refused command counted in its class.
    pub open spec fn counted_result(self, result: VirtioGpuResult) -> Self {
        match result {
            Ok(_) => self,
            Err(e) => GpuView {
                journal: self.journal.with_trace(
                    self.journal.trace.counted(trace::error_class(e)),
                ),
                ..self
            },
        }
    }
}

impl VirtioGpu {
    /// A command was carried out or refused, or was no command: counts a refusal and says what the
    /// guest is answered and who completes the command's fence.
    pub fn command_done(
        &mut self,
        fence_state: &mut FenceState,
        entry: &Entry,
        result: Option<VirtioGpuResult>,
        now_ns: u64,
    ) -> (answer: Answer)
        requires
            old(self)@.wf(),
            now_ns + HOLD_CEILING_NS <= u64::MAX,
        ensures
            final(self)@.wf(),
            ({
                let result = match result {
                    Some(r) => r,
                    None => Err(GpuResponse::ErrUnspec),
                };
                let counted = old(self)@.counted_result(result);
                &&& answer.response == match result {
                    Ok(r) => r,
                    Err(r) => r,
                }
                &&& match entry.fence_spec() {
                    Some(f) => {
                        let (after, route) = counted.route_fence(f, entry.is_flush, now_ns);
                        final(self)@ == after && answer.route == Some(route)
                    },
                    None => final(self)@ == counted && answer.route is None,
                }
                &&& if answer.route == Some(FenceRoute::Sync) {
                    old(fence_state).raised(
                        *final(fence_state),
                        fence::ring_of(entry.fence_spec().unwrap()),
                        entry.fence_spec().unwrap().fence_id,
                    )
                } else {
                    forall|r: VirtioGpuRing| #[trigger]
                        final(fence_state).watermark(r) == old(fence_state).watermark(r)
                }
            }),
            final(fence_state).pending() == old(fence_state).pending(),
    {
        let result: VirtioGpuResult = match result {
            Some(r) => r,
            None => Err(GpuResponse::ErrUnspec),
        };
        let response: GpuResponse = match result {
            Ok(r) => r,
            Err(r) => {
                self.journal_mut().classify_error(&r);
                r
            },
        };
        let route: Option<FenceRoute> = match entry.fence() {
            Some(f) => Some(self.create_fence(fence_state, f, entry.is_flush, now_ns)),
            None => None,
        };
        Answer { response, route }
    }

    /// The renderer was asked for the fence. Where it refused one of a context's rings the guest is
    /// answered that; where it refused one of the device's own ring the fence counts as completed,
    /// so that the guest never waits for it.
    pub fn fence_created(
        fence_state: &mut FenceState,
        answer: Answer,
        fence: &RendererFence,
        result: Result<(), RendererError>,
    ) -> (response: GpuResponse)
        requires
            answer.route == Some(FenceRoute::Renderer) || answer.route == Some(
                FenceRoute::RendererOrSync,
            ),
        ensures
            final(fence_state).pending() == old(fence_state).pending(),
            match result {
                Err(e) => if answer.route == Some(FenceRoute::Renderer) {
                    response@ == GpuResponseView::ErrRutabaga(e)
                } else {
                    response == answer.response
                },
                Ok(()) => response == answer.response,
            },
            if result is Err && answer.route == Some(FenceRoute::RendererOrSync) {
                old(fence_state).raised(
                    *final(fence_state),
                    fence::ring_of(*fence),
                    fence.fence_id,
                )
            } else {
                forall|r: VirtioGpuRing| #[trigger]
                    final(fence_state).watermark(r) == old(fence_state).watermark(r)
            },
    {
        match result {
            Ok(()) => answer.response,
            Err(e) => match answer.route {
                Some(FenceRoute::Renderer) => GpuResponse::ErrRutabaga(e),
                _ => {
                    mark_fence_completed_sync(fence_state, fence);
                    answer.response
                },
            },
        }
    }

    /// The answer was written, `len` bytes of it: the descriptor goes back to the guest, unless a
    /// fence behind it has not completed. Then it waits.
    pub fn entry_done(
        &mut self,
        fence_state: &mut FenceState,
        entry: &Entry,
        len: u32,
        now_ns: u64,
    ) -> (used: Option<(u16, u32)>)
        requires
            old(self)@.wf(),
        ensures
            final(self)@.wf(),
            forall|r: VirtioGpuRing| #[trigger]
                final(fence_state).watermark(r) == old(fence_state).watermark(r),
            ({
                let waits = entry.fence_spec() matches Some(f) && f.fence_id > old(
                    fence_state,
                ).watermark(fence::ring_of(f));
                &&& used == if waits {
                    None
                } else {
                    Some((entry.index, len))
                }
                &&& final(fence_state).pending() == if waits {
                    let f = entry.fence_spec().unwrap();
                    old(fence_state).pending().push(
                        FenceDescriptor {
                            ring: fence::ring_of(f),
                            fence_id: f.fence_id,
                            desc_index: entry.index,
                            len,
                            created_ns: now_ns,
                        },
                    )
                } else {
                    old(fence_state).pending()
                }
                &&& final(self)@ == if entry.fence_spec() is Some && !waits {
                    GpuView {
                        journal: old(self)@.journal.with_trace(
                            GpuTraceStats {
                                fences_retired: old(
                                    self,
                                )@.journal.trace.fences_retired.wrapping_add(1),
                                ..old(self)@.journal.trace
                            },
                        ),
                        ..old(self)@
                    }
                } else {
                    old(self)@
                }
            }),
    {
        match entry.fence() {
            Some(f) => if self.process_fence(
                fence_state,
                f.ring(),
                f.fence_id,
                entry.index,
                len,
                now_ns,
            ) {
                Some((entry.index, len))
            } else {
                None
            },
            None => Some((entry.index, len)),
        }
    }

    /// A cursor command has no answer: its descriptor goes back empty, whatever became of it.
    pub fn cursor_entry_done(index: u16) -> (used: (u16, u32))
        ensures
            used == (index, 0u32),
    {
        (index, 0)
    }
}

/// No descriptor is lost. One whose fence completes at once goes back at once; one that waits is
/// given back by the first completion of its ring that reaches its fence.
pub proof fn law_descriptor_comes_back(
    pending: Seq<FenceDescriptor>,
    d: FenceDescriptor,
    ring: VirtioGpuRing,
    id: u64,
)
    requires
        pending.contains(d),
        ring == d.ring,
        id >= d.fence_id,
    ensures
        pending.filter(|x: FenceDescriptor| x.done_by(ring, id)).contains(d),
        !pending.filter(|x: FenceDescriptor| !x.done_by(ring, id)).contains(d),
{
    let done = |x: FenceDescriptor| x.done_by(ring, id);
    let open = |x: FenceDescriptor| !x.done_by(ring, id);
    let i = choose|i: int| 0 <= i < pending.len() && pending[i] == d;
    pending.lemma_filter_contains(done, i);
    let left = pending.filter(open);
    assert forall|k: int| 0 <= k < left.len() implies left[k] != d by {
        pending.lemma_filter_pred(open, k);
    }
}

} // verus!
