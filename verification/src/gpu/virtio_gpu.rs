//! The device's own state, and what each command does to it.
//!
//! The renderer, the display backend and the hypervisor do their work outside. A command that
//! needs one of them says what to ask, and takes the answer as an argument.
use crate::codec::to_vec;
use crate::display::{DisplayInfo, DisplayInfoEdid, DisplayInfoEdidView, DisplayInfoView, EdidParams};
use crate::gpu::capture;
use crate::gpu::fence;
use crate::gpu::fence::{
    mark_fence_completed_sync, FenceDescriptor, FenceState, RendererFence, VirtioGpuRing,
    PRESENT_RING,
};
use crate::gpu::journal;
use crate::gpu::journal::{GpuJournal, JournalStep, JournalView};
use crate::gpu::present::{
    HoldView, ParkedFlush, PresentFenceState, PresentRound, PresentView, ACK_FALLBACK_NS,
    HOLD_CEILING_NS,
};
use crate::gpu::protocol;
use crate::gpu::protocol::{
    DisplayError, GpuResponse, GpuResponsePlaneInfo, GpuResponseView, ResourceFormat,
    VirtioGpuResult, BYTES_PER_PIXEL, VIRTIO_GPU_BLOB_FLAG_CREATE_GUEST_HANDLE,
    VIRTIO_GPU_BLOB_MEM_HOST3D, VIRTIO_GPU_FLAG_FENCE, VIRTIO_GPU_FLAG_INFO_RING_IDX,
    VIRTIO_GPU_MAX_SCANOUTS,
};
use crate::gpu::resource::{Sw2dResource, Sw2dView, VirtioGpuResource};
use crate::gpu::scanout;
use crate::gpu::scanout::{blit_scanout_rect, checked_blob_map_addr, VirtioGpuScanout};
use crate::gpu::trace::GpuTraceStats;
use crate::gpu_snapshot;
use crate::gpu_snapshot::{CursorSnapshot, CursorSnapshotView, GpuJournalEntry};
use crate::ordered;
use std::collections::BTreeMap;
use vstd::prelude::*;

verus! {

/// The capability set of the Vulkan renderer.
pub const CAPSET_VENUS: u32 = 4;

/// The capability sets of the GL renderer.
pub const CAPSET_VIRGL: u32 = 1;

pub const CAPSET_VIRGL2: u32 = 2;

/// The renderer serves the Vulkan set.
pub const VIRGLRENDERER_VENUS: u32 = 0x40;

/// The renderer does not serve the GL sets.
pub const VIRGLRENDERER_NO_VIRGL: u32 = 0x80;

/// The part of a mapping's flags that the guest is told: how it is cached.
pub const MAP_CACHE_MASK: u32 = 0x0f;

/// The part of a mapping's flags that says how it may be accessed.
pub const MAP_ACCESS_MASK: u32 = 0xf0;

pub const MAP_ACCESS_READ: u32 = 0x10;

pub const MAP_ACCESS_WRITE: u32 = 0x20;

pub const MAP_ACCESS_RW: u32 = 0x30;

/// How long after a present the guest is told of it, when nothing else is asked for.
pub const DEFAULT_LATCH_NS: u64 = 35_000_000;

#[derive(Clone, Copy, PartialEq, Eq, Structural, Debug)]
pub struct ResourceCreate3D {
    pub target: u32,
    pub format: u32,
    pub bind: u32,
    pub width: u32,
    pub height: u32,
    pub depth: u32,
    pub array_size: u32,
    pub last_level: u32,
    pub nr_samples: u32,
    pub flags: u32,
}

#[derive(Clone, Copy, PartialEq, Eq, Structural, Debug)]
pub struct ResourceCreateBlob {
    pub blob_mem: u32,
    pub blob_flags: u32,
    pub blob_id: u64,
    pub size: u64,
}

/// A box of a resource to copy, and where its bytes lie in the backing.
#[derive(Clone, Copy, PartialEq, Eq, Structural, Debug)]
pub struct Transfer3D {
    pub x: u32,
    pub y: u32,
    pub z: u32,
    pub w: u32,
    pub h: u32,
    pub d: u32,
    pub level: u32,
    pub stride: u32,
    pub layer_stride: u32,
    pub offset: u64,
}

/// A resource's planes, as the renderer knows them.
#[derive(Clone, Copy, Debug)]
pub struct ResourceQuery {
    pub strides: [u32; 4],
    pub offsets: [u32; 4],
    pub modifier: u64,
}

/// A region of guest address space that host memory is mapped into.
#[derive(Clone, Copy, PartialEq, Eq, Structural, Debug)]
pub struct VirtioShmRegion {
    pub host_addr: u64,
    pub guest_addr: u64,
    pub size: usize,
}

pub struct VirtioGpu {
    /// Whether there is a host 3D renderer; without one only software-2D resources work.
    renderer: bool,
    resources: BTreeMap<u32, VirtioGpuResource>,
    sw2d: BTreeMap<u32, Sw2dResource>,
    scanouts: Vec<Option<VirtioGpuScanout>>,
    displays: Vec<DisplayInfo>,
    present_fence: Option<PresentFenceState>,
    journal: GpuJournal,
    cursor_state: Option<CursorSnapshot>,
    /// A context of the GL renderer was created this session.
    vrend_ctx_seen: bool,
    /// Where blobs are mapped.
    shm: VirtioShmRegion,
}

pub struct GpuView {
    pub renderer: bool,
    pub resources: Map<u32, VirtioGpuResource>,
    pub sw2d: Map<u32, Sw2dView>,
    pub scanouts: Seq<Option<VirtioGpuScanout>>,
    pub displays: Seq<DisplayInfoView>,
    pub present: Option<PresentView>,
    pub journal: JournalView,
    pub cursor: Option<CursorSnapshotView>,
    pub vrend_ctx_seen: bool,
    pub shm: VirtioShmRegion,
}

pub open spec fn sw2d_view(m: Map<u32, Sw2dResource>) -> Map<u32, Sw2dView> {
    m.map_values(|r: Sw2dResource| r@)
}

impl View for VirtioGpu {
    type V = GpuView;

    closed spec fn view(&self) -> GpuView {
        GpuView {
            renderer: self.renderer,
            resources: self.resources@,
            sw2d: sw2d_view(self.sw2d@),
            scanouts: self.scanouts@,
            displays: gpu_snapshot::displays_view(self.displays@),
            present: match self.present_fence {
                Some(p) => Some(p@),
                None => None,
            },
            journal: self.journal@,
            cursor: match self.cursor_state {
                Some(c) => Some(c@),
                None => None,
            },
            vrend_ctx_seen: self.vrend_ctx_seen,
            shm: self.shm,
        }
    }
}

/// What the display backend is asked to do with a scanout.
#[derive(Clone, Copy, PartialEq, Eq, Structural, Debug)]
pub enum ScanoutRequest {
    Disable { scanout_id: u32 },
    Configure {
        scanout_id: u32,
        display_width: u32,
        display_height: u32,
        width: u32,
        height: u32,
        format: ResourceFormat,
    },
}

/// What is left to do to release a resource.
#[derive(Clone, Copy, PartialEq, Eq, Structural, Debug)]
pub enum UnrefRequest {
    /// Nothing: the renderer never had it.
    Nothing,
    /// The renderer drops it, and its mapping first where it has one.
    Renderer { unmap: bool },
}

/// Who completes a fence.
#[derive(Clone, Copy, PartialEq, Eq, Structural, Debug)]
pub enum FenceRoute {
    /// It is held until the flush's frames are shown, and completed at this time at the latest.
    Held { deadline_ns: u64 },
    /// The renderer completes it; if it refuses, the fence is refused.
    Renderer,
    /// The renderer completes it; if it refuses, the fence counts as completed.
    RendererOrSync,
    /// It counts as completed.
    Sync,
}

impl GpuView {
    pub open spec fn wf(self) -> bool {
        &&& self.scanouts.len() == VIRTIO_GPU_MAX_SCANOUTS
        &&& self.journal.wf()
        &&& self.present matches Some(p) ==> p.wf()
        &&& self.present is Some ==> self.renderer
        &&& forall|id: u32| #[trigger]
            self.resources.contains_key(id) ==> self.mapped_inside(self.resources[id])
    }

    /// A mapped blob lies inside the shared region.
    pub open spec fn mapped_inside(self, r: VirtioGpuResource) -> bool {
        r.shmem_offset matches Some(o) ==> o + r.size <= self.shm.size && self.shm.guest_addr + o
            <= u64::MAX
    }

    /// The counters can still count.
    pub open spec fn has_room(self) -> bool {
        &&& self.journal.has_room()
        &&& self.present matches Some(p) ==> p.next_cookie < u64::MAX
    }

    /// A software-2D resource of this size and format, black.
    pub open spec fn create_2d(self, id: u32, format: u32, width: u32, height: u32) -> (
        Self,
        Result<GpuResponseView, GpuResponseView>,
    ) {
        let len = width * height * BYTES_PER_PIXEL;
        match ResourceFormat::of_code(format) {
            Some(f) => if len <= usize::MAX {
                (
                    GpuView {
                        sw2d: self.sw2d.insert(
                            id,
                            Sw2dView {
                                host: Seq::new(len as nat, |i: int| 0u8),
                                backing: Seq::empty(),
                            },
                        ),
                        resources: self.resources.insert(
                            id,
                            VirtioGpuResource::fresh(id, width, height, Some(f), 0),
                        ),
                        ..self
                    },
                    protocol::plain_ok(),
                )
            } else {
                (self, Err(GpuResponseView::ErrUnspec))
            },
            None => (self, Err(GpuResponseView::ErrUnspec)),
        }
    }

    /// The answer to a query for a resource's planes.
    pub open spec fn plane_info(query: Option<ResourceQuery>) -> GpuResponseView {
        match query {
            Some(q) => GpuResponseView::OkResourcePlaneInfo {
                format_modifier: q.modifier,
                plane_info: Seq::new(
                    4,
                    |i: int| GpuResponsePlaneInfo { stride: q.strides@[i], offset: q.offsets@[i] },
                ),
            },
            None => GpuResponseView::OkNoData,
        }
    }

    /// The scanout no longer shows the resource that it was bound to.
    pub open spec fn release_scanout(self, scanout_id: u32) -> Self {
        match self.scanouts[scanout_id as int] {
            Some(s) => if self.resources.contains_key(s.resource_id) {
                let r = self.resources[s.resource_id];
                GpuView {
                    resources: self.resources.insert(
                        s.resource_id,
                        VirtioGpuResource { scanouts: r.scanouts.flipped(scanout_id), ..r },
                    ),
                    ..self
                }
            } else {
                self
            },
            None => self,
        }
    }

    /// The resource that the scanout is bound to is gone.
    pub open spec fn bound_to_missing(self, scanout_id: u32) -> bool {
        self.scanouts[scanout_id as int] matches Some(s) && !self.resources.contains_key(
            s.resource_id,
        )
    }

    pub open spec fn clear_scanout(self, scanout_id: u32) -> Self {
        GpuView { scanouts: self.scanouts.update(scanout_id as int, None), ..self }
    }

    /// Binds a scanout, up to the request to the display.
    pub open spec fn set_scanout(
        self,
        scanout_id: u32,
        resource_id: u32,
        width: u32,
        height: u32,
    ) -> (Self, Result<ScanoutRequest, GpuResponseView>) {
        if scanout_id >= VIRTIO_GPU_MAX_SCANOUTS {
            (self, Err(GpuResponseView::ErrInvalidScanoutId))
        } else if self.bound_to_missing(scanout_id) {
            (self, Err(GpuResponseView::ErrInvalidResourceId))
        } else {
            let free = self.release_scanout(scanout_id);
            if resource_id == 0 {
                (free.clear_scanout(scanout_id), Ok(ScanoutRequest::Disable { scanout_id }))
            } else if !free.resources.contains_key(resource_id) {
                (free, Err(GpuResponseView::ErrInvalidResourceId))
            } else {
                let r = free.resources[resource_id];
                let shown = GpuView {
                    resources: free.resources.insert(
                        resource_id,
                        VirtioGpuResource { scanouts: r.scanouts.with(scanout_id), ..r },
                    ),
                    ..free
                };
                match r.format {
                    Some(format) => if scanout_id < self.displays.len() {
                        (
                            shown,
                            Ok(
                                ScanoutRequest::Configure {
                                    scanout_id,
                                    display_width: self.displays[scanout_id as int].width,
                                    display_height: self.displays[scanout_id as int].height,
                                    width,
                                    height,
                                    format,
                                },
                            ),
                        )
                    } else {
                        (shown, Err(GpuResponseView::ErrInvalidScanoutId))
                    },
                    None => (shown, Err(GpuResponseView::ErrUnspec)),
                }
            }
        }
    }

    /// Binds a scanout to a blob, up to the request to the display. Size and format come from the
    /// command; an unknown format is taken for BGRA.
    pub open spec fn set_scanout_blob(
        self,
        scanout_id: u32,
        resource_id: u32,
        width: u32,
        height: u32,
        format: u32,
    ) -> (Self, Result<ScanoutRequest, GpuResponseView>) {
        if scanout_id >= VIRTIO_GPU_MAX_SCANOUTS {
            (self, Err(GpuResponseView::ErrInvalidScanoutId))
        } else {
            let free = self.release_scanout(scanout_id);
            if resource_id == 0 {
                (free.clear_scanout(scanout_id), Ok(ScanoutRequest::Disable { scanout_id }))
            } else if !free.resources.contains_key(resource_id) {
                (free, Err(GpuResponseView::ErrInvalidResourceId))
            } else {
                let f = match ResourceFormat::of_code(format) {
                    Some(f) => f,
                    None => ResourceFormat::BGRA,
                };
                let r = free.resources[resource_id];
                let shown = GpuView {
                    resources: free.resources.insert(
                        resource_id,
                        VirtioGpuResource {
                            scanouts: r.scanouts.with(scanout_id),
                            width,
                            height,
                            format: Some(f),
                            ..r
                        },
                    ),
                    ..free
                };
                if scanout_id < self.displays.len() {
                    (
                        shown,
                        Ok(
                            ScanoutRequest::Configure {
                                scanout_id,
                                display_width: self.displays[scanout_id as int].width,
                                display_height: self.displays[scanout_id as int].height,
                                width,
                                height,
                                format: f,
                            },
                        ),
                    )
                } else {
                    (shown, Err(GpuResponseView::ErrInvalidScanoutId))
                }
            }
        }
    }

    /// The display accepted the scanout. Surface 0 is no surface.
    pub open spec fn scanout_configured(
        self,
        scanout_id: u32,
        resource_id: u32,
        width: u32,
        height: u32,
        surface: Option<u32>,
    ) -> Self {
        GpuView {
            scanouts: self.scanouts.update(
                scanout_id as int,
                Some(
                    VirtioGpuScanout {
                        resource_id,
                        width,
                        height,
                        iosurface_id: if surface == Some(0u32) {
                            None
                        } else {
                            surface
                        },
                    },
                ),
            ),
            ..self
        }
    }

    /// Releases a resource, up to the request to the renderer. A resource that is still shown is
    /// refused, and forgotten all the same.
    pub open spec fn unref(self, id: u32) -> (Self, Result<UnrefRequest, GpuResponseView>) {
        if !self.resources.contains_key(id) {
            (self, Err(GpuResponseView::ErrInvalidResourceId))
        } else {
            let r = self.resources[id];
            let gone = GpuView { resources: self.resources.remove(id), ..self };
            if r.scanouts.0 != 0 {
                (gone, Err(GpuResponseView::ErrUnspec))
            } else if self.sw2d.contains_key(id) {
                (
                    GpuView { sw2d: self.sw2d.remove(id), ..gone },
                    Ok(UnrefRequest::Nothing),
                )
            } else if !self.renderer {
                (gone, Err(GpuResponseView::ErrUnspec))
            } else {
                (gone, Ok(UnrefRequest::Renderer { unmap: r.rutabaga_external_mapping }))
            }
        }
    }

    /// Nothing of a session is left; the renderer, the displays and the counters are.
    pub open spec fn reset_session(self) -> Self {
        GpuView {
            resources: Map::empty(),
            sw2d: Map::empty(),
            scanouts: Seq::new(VIRTIO_GPU_MAX_SCANOUTS as nat, |i: int| None),
            journal: self.journal.apply(JournalStep::Reset),
            cursor: None,
            vrend_ctx_seen: false,
            present: match self.present {
                Some(p) => Some(
                    PresentView {
                        parked: Map::empty(),
                        flush_cookies: Seq::empty(),
                        holds: Seq::empty(),
                        awaiting: Seq::empty(),
                        ..p
                    },
                ),
                None => None,
            },
            ..self
        }
    }
}

/// How long after a present the guest is told of it: the milliseconds asked for, or the default.
pub fn latch_delay_ns(ms: Option<u64>) -> (r: u64)
    ensures
        r == match ms {
            Some(ms) => if ms * 1_000_000 <= u64::MAX {
                (ms * 1_000_000) as u64
            } else {
                u64::MAX
            },
            None => DEFAULT_LATCH_NS,
        },
{
    match ms {
        Some(ms) => match ms.checked_mul(1_000_000) {
            Some(ns) => ns,
            None => u64::MAX,
        },
        None => DEFAULT_LATCH_NS,
    }
}

impl VirtioGpu {
    /// A device on which nothing was done. Frames are parked only where there is a renderer.
    pub fn new(
        renderer: bool,
        displays: Vec<DisplayInfo>,
        shm: VirtioShmRegion,
        latch_delay_ns: u64,
        ack_active: bool,
    ) -> (r: Self)
        ensures
            r@.wf(),
            r@.has_room(),
            r@.shm == shm,
            r@.renderer == renderer,
            r@.displays == gpu_snapshot::displays_view(displays@),
            r@.resources == Map::<u32, VirtioGpuResource>::empty(),
            r@.sw2d == Map::<u32, Sw2dView>::empty(),
            forall|i: int| 0 <= i < VIRTIO_GPU_MAX_SCANOUTS ==> (#[trigger] r@.scanouts[i]) is None,
            r@.journal == (JournalView {
                entries: Seq::empty(),
                seq_next: 1,
                recorded: 0,
                pruned: 0,
                trace: GpuTraceStats::zero(),
            }),
            r@.cursor is None,
            !r@.vrend_ctx_seen,
            match r@.present {
                Some(p) => renderer && p.quiescent() && p.next_cookie == 1 && p.latch_delay_ns
                    == latch_delay_ns && p.acks == ack_active,
                None => !renderer,
            },
    {
        let mut r = VirtioGpu {
            renderer,
            resources: BTreeMap::new(),
            sw2d: BTreeMap::new(),
            scanouts: Vec::new(),
            displays,
            present_fence: if renderer {
                Some(PresentFenceState::new(latch_delay_ns, ack_active))
            } else {
                None
            },
            journal: GpuJournal::new(GpuTraceStats::default()),
            cursor_state: None,
            vrend_ctx_seen: false,
            shm,
        };
        r.scanouts = no_scanouts();
        assert(sw2d_view(r.sw2d@) =~= Map::empty());
        r
    }

    /// Creates a software-2D resource. An unknown format and a size that no buffer can have are
    /// refused.
    pub fn resource_create_2d(
        &mut self,
        resource_id: u32,
        format: u32,
        width: u32,
        height: u32,
    ) -> (r: VirtioGpuResult)
        requires
            old(self)@.wf(),
            ResourceFormat::of_code(format) is Some ==> width * height * BYTES_PER_PIXEL
                <= isize::MAX || width * height * BYTES_PER_PIXEL > usize::MAX,
        ensures
            (final(self)@, protocol::result_view(r)) == old(self)@.create_2d(
                resource_id,
                format,
                width,
                height,
            ),
            final(self)@.wf(),
    {
        let format: ResourceFormat = match ResourceFormat::from_code(format) {
            Some(f) => f,
            None => {
                return Err(GpuResponse::ErrUnspec);
            },
        };
        let px: usize = match (width as usize).checked_mul(height as usize) {
            Some(px) => px,
            None => {
                assert(width * height * BYTES_PER_PIXEL > usize::MAX);
                return Err(GpuResponse::ErrUnspec);
            },
        };
        let len: usize = match px.checked_mul(BYTES_PER_PIXEL) {
            Some(len) => len,
            None => {
                return Err(GpuResponse::ErrUnspec);
            },
        };
        let sw = Sw2dResource { host: vec![0u8; len], backing: Vec::new() };
        assert(sw.host@ =~= Seq::new(len as nat, |i: int| 0u8));
        let ghost swv = sw@;
        ordered::insert32(&mut self.sw2d, resource_id, sw);
        ordered::insert32(
            &mut self.resources,
            resource_id,
            VirtioGpuResource::new(resource_id, width, height, Some(format), 0),
        );
        assert(sw2d_view(self.sw2d@) =~= sw2d_view(old(self).sw2d@).insert(resource_id, swv));
        Ok(GpuResponse::OkNoData)
    }

    /// The answer to a resource's creation: what the renderer knows of its planes.
    pub fn result_from_query(query: Option<ResourceQuery>) -> (r: GpuResponse)
        ensures
            r@ == GpuView::plane_info(query),
    {
        match query {
            Some(q) => {
                let mut plane_info: Vec<GpuResponsePlaneInfo> = Vec::with_capacity(4);
                let mut i: usize = 0;
                while i < 4
                    invariant
                        i <= 4,
                        plane_info@ == Seq::new(
                            i as nat,
                            |i: int|
                                GpuResponsePlaneInfo {
                                    stride: q.strides@[i],
                                    offset: q.offsets@[i],
                                },
                        ),
                    decreases 4 - i,
                {
                    let ghost before = plane_info@;
                    plane_info.push(
                        GpuResponsePlaneInfo { stride: q.strides[i], offset: q.offsets[i] },
                    );
                    i = i + 1;
                    assert(plane_info@ =~= Seq::new(
                        i as nat,
                        |i: int|
                            GpuResponsePlaneInfo { stride: q.strides@[i], offset: q.offsets@[i] },
                    ));
                }
                GpuResponse::OkResourcePlaneInfo { format_modifier: q.modifier, plane_info }
            },
            None => GpuResponse::OkNoData,
        }
    }

    /// The renderer created a 3D resource: remembers it. A format that the display does not know
    /// is remembered as unknown.
    pub fn resource_created_3d(&mut self, resource_id: u32, create: ResourceCreate3D)
        requires
            old(self)@.wf(),
        ensures
            final(self)@ == (GpuView {
                resources: old(self)@.resources.insert(
                    resource_id,
                    VirtioGpuResource::fresh(
                        resource_id,
                        create.width,
                        create.height,
                        ResourceFormat::of_code(create.format),
                        0,
                    ),
                ),
                ..old(self)@
            }),
            final(self)@.wf(),
    {
        let format: Option<ResourceFormat> = ResourceFormat::from_code(create.format);
        ordered::insert32(
            &mut self.resources,
            resource_id,
            VirtioGpuResource::new(resource_id, create.width, create.height, format, 0),
        );
    }

    /// The guest memory that a blob's creation hands to the renderer: none for memory that lives
    /// in the renderer only.
    pub fn blob_takes_backing(create: &ResourceCreateBlob) -> (r: bool)
        requires
            create.blob_flags & VIRTIO_GPU_BLOB_FLAG_CREATE_GUEST_HANDLE == 0,
        ensures
            r == (create.blob_mem != VIRTIO_GPU_BLOB_MEM_HOST3D),
    {
        create.blob_mem != VIRTIO_GPU_BLOB_MEM_HOST3D
    }

    /// The renderer created a blob: remembers it with the context that renders into it.
    pub fn resource_created_blob(
        &mut self,
        ctx_id: u32,
        resource_id: u32,
        create: ResourceCreateBlob,
    )
        requires
            old(self)@.wf(),
        ensures
            final(self)@ == (GpuView {
                resources: old(self)@.resources.insert(
                    resource_id,
                    VirtioGpuResource {
                        ctx_id,
                        ..VirtioGpuResource::fresh(resource_id, 0, 0, None, create.size)
                    },
                ),
                ..old(self)@
            }),
            final(self)@.wf(),
    {
        let mut resource = VirtioGpuResource::new(resource_id, 0, 0, None, create.size);
        resource.ctx_id = ctx_id;
        ordered::insert32(&mut self.resources, resource_id, resource);
    }

    /// Releases a resource. One that a scanout still shows is refused.
    pub fn unref_resource(&mut self, resource_id: u32) -> (r: Result<UnrefRequest, GpuResponse>)
        requires
            old(self)@.wf(),
        ensures
            ({
                let (after, want) = old(self)@.unref(resource_id);
                &&& final(self)@ == after
                &&& same_request(r, want)
            }),
            final(self)@.wf(),
    {
        let resource: VirtioGpuResource = match ordered::remove32(
            &mut self.resources,
            resource_id,
        ) {
            Some(r) => r,
            None => {
                assert(self.resources@ =~= old(self).resources@);
                return Err(GpuResponse::ErrInvalidResourceId);
            },
        };
        if resource.scanouts.0 != 0 {
            return Err(GpuResponse::ErrUnspec);
        }
        let ghost before = self.sw2d@;
        let was: Option<Sw2dResource> = ordered::remove32(&mut self.sw2d, resource_id);
        assert(sw2d_view(self.sw2d@) =~= sw2d_view(before).remove(resource_id));
        if was.is_some() {
            return Ok(UnrefRequest::Nothing);
        }
        assert(self.sw2d@ =~= before);
        if !self.renderer {
            return Err(GpuResponse::ErrUnspec);
        }
        Ok(UnrefRequest::Renderer { unmap: resource.rutabaga_external_mapping })
    }
}

impl GpuView {
    /// The scanout no longer presents a surface of its own.
    pub open spec fn forget_surface(self, scanout_id: u32) -> Self {
        match self.scanouts[scanout_id as int] {
            Some(s) => GpuView {
                scanouts: self.scanouts.update(
                    scanout_id as int,
                    Some(VirtioGpuScanout { iosurface_id: None, ..s }),
                ),
                ..self
            },
            None => self,
        }
    }

    /// The flush cookies of the command before are forgotten.
    pub open spec fn begin_flush(self) -> Self {
        GpuView {
            present: match self.present {
                Some(p) => Some(PresentView { flush_cookies: Seq::empty(), ..p }),
                None => None,
            },
            ..self
        }
    }

    /// The cursor image that a resource holds, with its padding byte read as alpha.
    pub open spec fn cursor_image(self, resource_id: u32) -> Result<
        (u32, u32, ResourceFormat),
        GpuResponseView,
    > {
        if !self.resources.contains_key(resource_id) {
            Err(GpuResponseView::ErrInvalidResourceId)
        } else if !self.sw2d.contains_key(resource_id) {
            Err(GpuResponseView::ErrUnspec)
        } else {
            let r = self.resources[resource_id];
            let format = match r.format {
                Some(f) => f,
                None => ResourceFormat::BGRA,
            };
            Ok((r.width, r.height, format.alpha()))
        }
    }

    pub open spec fn move_cursor(self, x: u32, y: u32) -> Self {
        GpuView {
            cursor: match self.cursor {
                Some(c) => Some(CursorSnapshotView { x, y, ..c }),
                None => None,
            },
            ..self
        }
    }

    /// The display's preferred mode; a display that is not there has none.
    pub open spec fn set_display_size(self, display_id: u32, width: u32, height: u32) -> Self {
        if display_id < self.displays.len() {
            GpuView {
                displays: self.displays.update(
                    display_id as int,
                    DisplayInfoView { width, height, ..self.displays[display_id as int] },
                ),
                ..self
            }
        } else {
            self
        }
    }

    pub open spec fn set_display_edid(self, display_id: u32, params: EdidParams) -> Self {
        if display_id < self.displays.len() {
            GpuView {
                displays: self.displays.update(
                    display_id as int,
                    DisplayInfoView {
                        edid: DisplayInfoEdidView::Generated(params@),
                        ..self.displays[display_id as int]
                    },
                ),
                ..self
            }
        } else {
            self
        }
    }

    pub open spec fn set_display_connected(self, display_id: u32, connected: bool) -> Self {
        if display_id < self.displays.len() {
            GpuView {
                displays: self.displays.update(
                    display_id as int,
                    DisplayInfoView { connected, ..self.displays[display_id as int] },
                ),
                ..self
            }
        } else {
            self
        }
    }

    /// Each display's mode; all of them are reported enabled.
    pub open spec fn display_info(self) -> Seq<(u32, u32, bool)> {
        self.displays.map_values(|d: DisplayInfoView| (d.width, d.height, true))
    }

    /// A context was created. One that is not the Vulkan renderer's belongs to the GL renderer.
    pub open spec fn context_created(self, context_init: u32) -> Self {
        GpuView {
            vrend_ctx_seen: self.vrend_ctx_seen || context_init & 0xff != CAPSET_VENUS,
            ..self
        }
    }

    /// Where a blob goes, before the renderer is asked about it.
    pub open spec fn map_addr(self, resource_id: u32, offset: u64) -> Option<u64> {
        let size = self.resources[resource_id].size;
        if offset + size <= self.shm.size && self.shm.guest_addr + offset <= u64::MAX {
            Some((self.shm.guest_addr + offset) as u64)
        } else {
            None
        }
    }

    /// The blob's mapping recorded, or forgotten.
    pub open spec fn mapped(self, resource_id: u32, offset: Option<u64>) -> Self {
        GpuView {
            resources: self.resources.insert(
                resource_id,
                VirtioGpuResource { shmem_offset: offset, ..self.resources[resource_id] },
            ),
            ..self
        }
    }

    /// Who completes a fence, and what holding it leaves.
    pub open spec fn route_fence(self, fence: RendererFence, is_flush: bool, now: u64) -> (
        Self,
        FenceRoute,
    ) {
        let own_ring = fence.flags & VIRTIO_GPU_FLAG_INFO_RING_IDX == 0;
        let counted = GpuView {
            journal: self.journal.with_trace(
                GpuTraceStats {
                    fences_requested: self.journal.trace.fences_requested.wrapping_add(1),
                    ..self.journal.trace
                },
            ),
            ..self
        };
        match self.present {
            Some(p) if is_flush && own_ring && p.flush_cookies.len() > 0 => {
                let cookies = p.flush_cookies.to_set();
                (
                    GpuView {
                        present: Some(
                            PresentView {
                                flush_cookies: Seq::empty(),
                                holds: p.holds.push(
                                    HoldView {
                                        fence,
                                        unpresented: cookies,
                                        unconfirmed: cookies,
                                        fallback_at: None,
                                        created_at: now,
                                    },
                                ),
                                ..p
                            },
                        ),
                        ..counted
                    },
                    FenceRoute::Held { deadline_ns: (now + HOLD_CEILING_NS) as u64 },
                )
            },
            _ => (
                counted,
                if self.renderer && !own_ring {
                    FenceRoute::Renderer
                } else if self.renderer && self.vrend_ctx_seen {
                    FenceRoute::RendererOrSync
                } else {
                    FenceRoute::Sync
                },
            ),
        }
    }
}

/// The resource's id, big-endian, in the last four of sixteen bytes.
pub open spec fn uuid_of(resource_id: u32) -> Seq<u8> {
    Seq::new(12, |i: int| 0u8) + seq![
        ((resource_id >> 24) & 0xff) as u8,
        ((resource_id >> 16) & 0xff) as u8,
        ((resource_id >> 8) & 0xff) as u8,
        (resource_id & 0xff) as u8,
    ]
}

/// The capability sets that a renderer with these flags backs, a bit for each.
pub open spec fn capset_mask(virgl_flags: u32) -> u64 {
    let venus = if virgl_flags & VIRGLRENDERER_VENUS != 0 {
        1u64 << CAPSET_VENUS
    } else {
        0
    };
    let virgl = if virgl_flags & VIRGLRENDERER_NO_VIRGL == 0 {
        (1u64 << CAPSET_VIRGL) | (1u64 << CAPSET_VIRGL2)
    } else {
        0
    };
    venus | virgl
}

/// What may be done with a mapping.
#[derive(Clone, Copy, PartialEq, Eq, Structural, Debug)]
pub enum MapAccess {
    Read,
    Write,
    ReadWrite,
}

/// The access that a mapping's flags ask for, if they ask for one.
pub fn map_access(map_info: u32) -> (r: Option<MapAccess>)
    ensures
        r == if map_info & MAP_ACCESS_MASK == MAP_ACCESS_READ {
            Some(MapAccess::Read)
        } else if map_info & MAP_ACCESS_MASK == MAP_ACCESS_WRITE {
            Some(MapAccess::Write)
        } else if map_info & MAP_ACCESS_MASK == MAP_ACCESS_RW {
            Some(MapAccess::ReadWrite)
        } else {
            None
        },
{
    let access: u32 = map_info & MAP_ACCESS_MASK;
    if access == MAP_ACCESS_READ {
        Some(MapAccess::Read)
    } else if access == MAP_ACCESS_WRITE {
        Some(MapAccess::Write)
    } else if access == MAP_ACCESS_RW {
        Some(MapAccess::ReadWrite)
    } else {
        None
    }
}

/// What a cursor call to the display is answered: a display without a cursor overlay ignores it.
pub fn cursor_ok(r: Result<(), DisplayError>) -> (res: VirtioGpuResult)
    ensures
        protocol::result_view(res) == cursor_verdict(r),
{
    match r {
        Ok(()) => Ok(GpuResponse::OkNoData),
        Err(DisplayError::MethodNotSupported) => Ok(GpuResponse::OkNoData),
        Err(_) => Err(GpuResponse::ErrUnspec),
    }
}

pub open spec fn cursor_verdict(r: Result<(), DisplayError>) -> Result<
    GpuResponseView,
    GpuResponseView,
> {
    match r {
        Ok(()) => protocol::plain_ok(),
        Err(DisplayError::MethodNotSupported) => protocol::plain_ok(),
        Err(_) => Err(GpuResponseView::ErrUnspec),
    }
}

impl VirtioGpu {
    /// The resource's entry, if it has one.
    pub fn resource(&self, resource_id: u32) -> (r: Option<VirtioGpuResource>)
        ensures
            r == if self@.resources.contains_key(resource_id) {
                Some(self@.resources[resource_id])
            } else {
                None
            },
    {
        match ordered::get32(&self.resources, resource_id) {
            Some(r) => Some(*r),
            None => None,
        }
    }

    /// The scanout's binding, if it has one.
    pub fn scanout(&self, scanout_id: u32) -> (r: Option<VirtioGpuScanout>)
        requires
            self@.wf(),
        ensures
            r == if scanout_id < VIRTIO_GPU_MAX_SCANOUTS {
                self@.scanouts[scanout_id as int]
            } else {
                None
            },
    {
        if scanout_id < VIRTIO_GPU_MAX_SCANOUTS {
            self.scanouts[scanout_id as usize]
        } else {
            None
        }
    }

    /// Whether another command can be journaled and another frame parked.
    pub fn room_left(&self) -> (r: bool)
        ensures
            r == self@.has_room(),
    {
        self.journal.room_left() && match &self.present_fence {
            Some(p) => p.room_left(),
            None => true,
        }
    }

    /// Whether there is a renderer.
    pub fn has_renderer(&self) -> (r: bool)
        ensures
            r == self@.renderer,
    {
        self.renderer
    }

    /// Whether the resource's pixels live in host memory.
    pub fn has_sw2d(&self, resource_id: u32) -> (r: bool)
        ensures
            r == self@.sw2d.contains_key(resource_id),
    {
        ordered::get32(&self.sw2d, resource_id).is_some()
    }

    /// The scanout no longer shows the resource that it was bound to, where that is still there.
    fn release_scanout(&mut self, scanout_id: u32)
        requires
            old(self)@.wf(),
            scanout_id < VIRTIO_GPU_MAX_SCANOUTS,
        ensures
            final(self)@ == old(self)@.release_scanout(scanout_id),
            final(self)@.wf(),
    {
        match self.scanouts[scanout_id as usize] {
            Some(s) => match self.resource(s.resource_id) {
                Some(mut r) => {
                    r.scanouts.disable(scanout_id);
                    ordered::insert32(&mut self.resources, s.resource_id, r);
                },
                None => {},
            },
            None => {},
        }
    }

    /// Binds a scanout to a resource: says what the display is asked, or why the command is
    /// refused. Resource 0 unbinds the scanout.
    pub fn set_scanout(
        &mut self,
        scanout_id: u32,
        resource_id: u32,
        width: u32,
        height: u32,
    ) -> (r: Result<ScanoutRequest, GpuResponse>)
        requires
            old(self)@.wf(),
        ensures
            ({
                let (after, want) = old(self)@.set_scanout(scanout_id, resource_id, width, height);
                &&& final(self)@ == after
                &&& same_request(r, want)
            }),
            final(self)@.wf(),
    {
        if scanout_id >= VIRTIO_GPU_MAX_SCANOUTS {
            return Err(GpuResponse::ErrInvalidScanoutId);
        }
        if let Some(s) = self.scanouts[scanout_id as usize] {
            if self.resource(s.resource_id).is_none() {
                return Err(GpuResponse::ErrInvalidResourceId);
            }
        }
        self.release_scanout(scanout_id);
        if resource_id == 0 {
            self.scanouts.set(scanout_id as usize, None);
            return Ok(ScanoutRequest::Disable { scanout_id });
        }
        let mut resource: VirtioGpuResource = match self.resource(resource_id) {
            Some(r) => r,
            None => {
                return Err(GpuResponse::ErrInvalidResourceId);
            },
        };
        resource.scanouts.enable(scanout_id);
        ordered::insert32(&mut self.resources, resource_id, resource);
        match resource.format {
            Some(format) => self.configure_request(scanout_id, width, height, format),
            None => Err(GpuResponse::ErrUnspec),
        }
    }

    /// What the display is asked to show on a scanout: the display's own mode and the guest's.
    fn configure_request(
        &self,
        scanout_id: u32,
        width: u32,
        height: u32,
        format: ResourceFormat,
    ) -> (r: Result<ScanoutRequest, GpuResponse>)
        ensures
            if scanout_id < self@.displays.len() {
                r == Ok::<ScanoutRequest, GpuResponse>(
                    ScanoutRequest::Configure {
                        scanout_id,
                        display_width: self@.displays[scanout_id as int].width,
                        display_height: self@.displays[scanout_id as int].height,
                        width,
                        height,
                        format,
                    },
                )
            } else {
                r matches Err(e) && e@ == GpuResponseView::ErrInvalidScanoutId
            },
    {
        if (scanout_id as usize) < self.displays.len() {
            let d: &DisplayInfo = &self.displays[scanout_id as usize];
            Ok(
                ScanoutRequest::Configure {
                    scanout_id,
                    display_width: d.width,
                    display_height: d.height,
                    width,
                    height,
                    format,
                },
            )
        } else {
            Err(GpuResponse::ErrInvalidScanoutId)
        }
    }

    /// Binds a scanout to a blob, whose size and format come from the command.
    pub fn set_scanout_blob(
        &mut self,
        scanout_id: u32,
        resource_id: u32,
        width: u32,
        height: u32,
        format: u32,
    ) -> (r: Result<ScanoutRequest, GpuResponse>)
        requires
            old(self)@.wf(),
        ensures
            ({
                let (after, want) = old(self)@.set_scanout_blob(
                    scanout_id,
                    resource_id,
                    width,
                    height,
                    format,
                );
                &&& final(self)@ == after
                &&& same_request(r, want)
            }),
            final(self)@.wf(),
    {
        if scanout_id >= VIRTIO_GPU_MAX_SCANOUTS {
            return Err(GpuResponse::ErrInvalidScanoutId);
        }
        self.release_scanout(scanout_id);
        if resource_id == 0 {
            self.scanouts.set(scanout_id as usize, None);
            return Ok(ScanoutRequest::Disable { scanout_id });
        }
        let mut resource: VirtioGpuResource = match self.resource(resource_id) {
            Some(r) => r,
            None => {
                return Err(GpuResponse::ErrInvalidResourceId);
            },
        };
        let res_format: ResourceFormat = match ResourceFormat::from_code(format) {
            Some(f) => f,
            None => ResourceFormat::BGRA,
        };
        resource.scanouts.enable(scanout_id);
        resource.width = width;
        resource.height = height;
        resource.format = Some(res_format);
        ordered::insert32(&mut self.resources, resource_id, resource);
        self.configure_request(scanout_id, width, height, res_format)
    }

    /// The display accepted the scanout: remembers what it shows. Surface 0 is no surface.
    pub fn scanout_configured(
        &mut self,
        scanout_id: u32,
        resource_id: u32,
        width: u32,
        height: u32,
        surface: Option<u32>,
    )
        requires
            old(self)@.wf(),
            scanout_id < VIRTIO_GPU_MAX_SCANOUTS,
        ensures
            final(self)@ == old(self)@.scanout_configured(
                scanout_id,
                resource_id,
                width,
                height,
                surface,
            ),
            final(self)@.wf(),
    {
        let iosurface_id: Option<u32> = match surface {
            Some(id) => if id != 0 {
                Some(id)
            } else {
                None
            },
            None => None,
        };
        self.scanouts.set(
            scanout_id as usize,
            Some(VirtioGpuScanout { resource_id, width, height, iosurface_id }),
        );
    }

    /// The scanout's surface could not be brought up to date: its frames are read back from now
    /// on.
    pub fn forget_surface(&mut self, scanout_id: u32)
        requires
            old(self)@.wf(),
            scanout_id < VIRTIO_GPU_MAX_SCANOUTS,
        ensures
            final(self)@ == old(self)@.forget_surface(scanout_id),
            final(self)@.wf(),
    {
        if let Some(s) = self.scanouts[scanout_id as usize] {
            self.scanouts.set(
                scanout_id as usize,
                Some(VirtioGpuScanout { iosurface_id: None, ..s }),
            );
        }
    }

    /// A new flush command: what the one before parked is not waited for by this one's fence.
    pub fn begin_flush(&mut self)
        requires
            old(self)@.wf(),
        ensures
            final(self)@ == old(self)@.begin_flush(),
            final(self)@.wf(),
    {
        match &mut self.present_fence {
            Some(p) => {
                p.begin_flush();
            },
            None => {},
        }
    }

    /// Parks a frame until its context's work completes, where frames can be parked. The fence is
    /// to be injected on the context's present ring.
    pub fn park_frame(&mut self, frame: ParkedFlush, ctx_id: u32) -> (r: Option<RendererFence>)
        requires
            old(self)@.wf(),
            old(self)@.has_room(),
        ensures
            final(self)@.wf(),
            match old(self)@.present {
                Some(p) => final(self)@ == (GpuView { present: Some(p.park(frame)), ..old(self)@ })
                    && r == Some(
                    RendererFence {
                        flags: VIRTIO_GPU_FLAG_FENCE | VIRTIO_GPU_FLAG_INFO_RING_IDX,
                        fence_id: p.next_cookie as u64,
                        ctx_id,
                        ring_idx: PRESENT_RING,
                    },
                ),
                None => r is None && final(self)@ == old(self)@,
            },
    {
        match &mut self.present_fence {
            Some(p) => Some(p.park(frame, ctx_id)),
            None => None,
        }
    }

    /// The present fence was refused: the frame is not parked after all.
    pub fn unpark_frame(&mut self, cookie: u64)
        requires
            old(self)@.wf(),
        ensures
            final(self)@.wf(),
            final(self)@ == (GpuView {
                present: match old(self)@.present {
                    Some(p) => Some(p.unpark(cookie)),
                    None => None,
                },
                ..old(self)@
            }),
    {
        match &mut self.present_fence {
            Some(p) => {
                p.unpark(cookie);
            },
            None => {},
        }
    }

    /// Whether nothing in the present plumbing refers to the queue of this activation. Cookies
    /// that retired and were not looked at yet do.
    pub fn present_quiescent(&self, retired: bool) -> (r: bool)
        ensures
            r == match self@.present {
                Some(p) => p.quiescent() && !retired,
                None => true,
            },
    {
        match &self.present_fence {
            Some(p) => p.present_quiescent(retired),
            None => true,
        }
    }

    /// The cursor image that a resource holds: its size and its format.
    pub fn cursor_image(&self, resource_id: u32) -> (r: Result<
        (u32, u32, ResourceFormat),
        GpuResponse,
    >)
        ensures
            same_request(r, self@.cursor_image(resource_id)),
    {
        let resource: VirtioGpuResource = match self.resource(resource_id) {
            Some(r) => r,
            None => {
                return Err(GpuResponse::ErrInvalidResourceId);
            },
        };
        if !self.has_sw2d(resource_id) {
            return Err(GpuResponse::ErrUnspec);
        }
        let format: ResourceFormat = match resource.format {
            Some(f) => f,
            None => ResourceFormat::BGRA,
        };
        Ok((resource.width, resource.height, format.with_alpha()))
    }

    /// A copy of a software-2D resource's pixels.
    pub fn sw2d_pixels(&self, resource_id: u32) -> (r: Option<Vec<u8>>)
        ensures
            match r {
                Some(p) => self@.sw2d.contains_key(resource_id) && p@
                    == self@.sw2d[resource_id].host,
                None => !self@.sw2d.contains_key(resource_id),
            },
    {
        match ordered::get32(&self.sw2d, resource_id) {
            Some(sw) => Some(to_vec(sw.host.as_slice())),
            None => None,
        }
    }

    /// The cursor overlay as the display has it now; `None` when it is hidden.
    pub fn set_cursor_state(&mut self, cursor: Option<CursorSnapshot>)
        requires
            old(self)@.wf(),
        ensures
            final(self)@.wf(),
            final(self)@ == (GpuView {
                cursor: match cursor {
                    Some(c) => Some(c@),
                    None => None,
                },
                ..old(self)@
            }),
    {
        self.cursor_state = cursor;
    }

    /// Takes over the cursor of a restored snapshot, where its format is known, for the display to
    /// be told.
    pub fn restore_cursor(&mut self, cursor: CursorSnapshot) -> (format: Option<ResourceFormat>)
        requires
            old(self)@.wf(),
        ensures
            final(self)@.wf(),
            format == ResourceFormat::of_code(cursor.format),
            final(self)@ == if format is Some {
                GpuView { cursor: Some(cursor@), ..old(self)@ }
            } else {
                old(self)@
            },
    {
        let format: Option<ResourceFormat> = ResourceFormat::from_code(cursor.format);
        if format.is_some() {
            self.cursor_state = Some(cursor);
        }
        format
    }

    /// The displays that the guest is told of.
    pub fn displays(&self) -> (r: &[DisplayInfo])
        ensures
            gpu_snapshot::displays_view(r@) == self@.displays,
    {
        self.displays.as_slice()
    }

    /// The scanouts that show something, in order.
    pub fn shown_scanouts(&self) -> (r: Vec<u32>)
        requires
            self@.wf(),
        ensures
            r@ == capture::shown_of(self@.scanouts),
    {
        let ghost all = self.scanouts@;
        let mut r: Vec<u32> = Vec::new();
        let mut i: usize = 0;
        while i < self.scanouts.len()
            invariant
                i <= all.len() == VIRTIO_GPU_MAX_SCANOUTS,
                all == self.scanouts@,
                r@ == capture::shown_of(all.take(i as int)),
            decreases all.len() - i,
        {
            assert(all.take(i + 1).drop_last() =~= all.take(i as int));
            if self.scanouts[i].is_some() {
                r.push(i as u32);
            }
            i = i + 1;
        }
        assert(all.take(all.len() as int) =~= all);
        r
    }

    /// Takes over the displays of a restored snapshot. The guest of the snapshot knows these, and
    /// asks again as soon as it runs.
    pub fn restore_displays(&mut self, displays: Vec<DisplayInfo>)
        requires
            old(self)@.wf(),
        ensures
            final(self)@.wf(),
            final(self)@ == (GpuView {
                displays: gpu_snapshot::displays_view(displays@),
                ..old(self)@
            }),
    {
        self.displays = displays;
    }

    /// How many bytes of a restored content go into a blob: no more than it holds. `None` for a
    /// blob that is not there.
    pub fn blob_content_len(&self, resource_id: u32, len: usize) -> (r: Option<usize>)
        ensures
            r == if !self@.resources.contains_key(resource_id) || !self@.renderer {
                None
            } else if self@.resources[resource_id].size <= len {
                Some(self@.resources[resource_id].size as usize)
            } else {
                Some(len)
            },
    {
        if !self.renderer {
            return None;
        }
        match self.resource(resource_id) {
            Some(r) => if r.size <= len as u64 {
                Some(r.size as usize)
            } else {
                Some(len)
            },
            None => None,
        }
    }

    /// The cursor overlay moved.
    pub fn move_cursor_state(&mut self, x: u32, y: u32)
        requires
            old(self)@.wf(),
        ensures
            final(self)@ == old(self)@.move_cursor(x, y),
            final(self)@.wf(),
    {
        match &mut self.cursor_state {
            Some(c) => {
                c.x = x;
                c.y = y;
            },
            None => {},
        }
    }

    /// Each display's preferred mode.
    pub fn display_info(&self) -> (r: VirtioGpuResult)
        ensures
            protocol::result_view(r) == Ok::<GpuResponseView, GpuResponseView>(
                GpuResponseView::OkDisplayInfo(self@.display_info()),
            ),
    {
        let mut out: Vec<(u32, u32, bool)> = Vec::new();
        let mut i: usize = 0;
        while i < self.displays.len()
            invariant
                i <= self.displays@.len(),
                out@ == self@.display_info().take(i as int),
            decreases self.displays@.len() - i,
        {
            let d: &DisplayInfo = &self.displays[i];
            out.push((d.width, d.height, true));
            i = i + 1;
            assert(out@ =~= self@.display_info().take(i as int));
        }
        assert(out@ =~= self@.display_info());
        Ok(GpuResponse::OkDisplayInfo(out))
    }

    /// The display whose EDID is asked for.
    pub fn edid_of(&self, scanout_id: u32) -> (r: Result<&DisplayInfo, GpuResponse>)
        ensures
            match r {
                Ok(d) => scanout_id < self@.displays.len() && d@
                    == self@.displays[scanout_id as int],
                Err(e) => scanout_id >= self@.displays.len() && e@
                    == GpuResponseView::ErrInvalidScanoutId,
            },
    {
        if (scanout_id as usize) < self.displays.len() {
            Ok(&self.displays[scanout_id as usize])
        } else {
            Err(GpuResponse::ErrInvalidScanoutId)
        }
    }

    /// The host window was resized: the display's preferred mode.
    pub fn set_display_size(&mut self, display_id: u32, width: u32, height: u32)
        requires
            old(self)@.wf(),
        ensures
            final(self)@ == old(self)@.set_display_size(display_id, width, height),
            final(self)@.wf(),
    {
        if (display_id as usize) < self.displays.len() {
            let d: &mut DisplayInfo = &mut self.displays[display_id as usize];
            d.width = width;
            d.height = height;
        }
        assert(self@.displays =~= old(self)@.set_display_size(display_id, width, height).displays);
    }

    /// The display's EDID is generated from these parameters from now on.
    pub fn set_display_edid(&mut self, display_id: u32, params: EdidParams)
        requires
            old(self)@.wf(),
        ensures
            final(self)@ == old(self)@.set_display_edid(display_id, params),
            final(self)@.wf(),
    {
        if (display_id as usize) < self.displays.len() {
            let d: &mut DisplayInfo = &mut self.displays[display_id as usize];
            d.edid = DisplayInfoEdid::Generated(params);
        }
        assert(self@.displays =~= old(self)@.set_display_edid(display_id, params).displays);
    }

    /// The display was plugged in or out.
    pub fn set_display_connected(&mut self, display_id: u32, connected: bool)
        requires
            old(self)@.wf(),
        ensures
            final(self)@ == old(self)@.set_display_connected(display_id, connected),
            final(self)@.wf(),
    {
        if (display_id as usize) < self.displays.len() {
            let d: &mut DisplayInfo = &mut self.displays[display_id as usize];
            d.connected = connected;
        }
        assert(self@.displays =~= old(self)@.set_display_connected(display_id, connected).displays);
    }
}

impl GpuView {
    /// A software-2D resource with other pixels or another backing.
    pub open spec fn with_sw2d(self, resource_id: u32, sw: Sw2dView) -> Self {
        GpuView { sw2d: self.sw2d.insert(resource_id, sw), ..self }
    }

    /// Size and position in the frame that a scanout reads back: the scanout's own, or the
    /// resource's where the scanout has none.
    pub open spec fn scan_size(self, scanout_id: u32, resource: VirtioGpuResource) -> (u32, u32) {
        match self.scanouts[scanout_id as int] {
            Some(s) => if s.width != 0 && s.height != 0 {
                (s.width, s.height)
            } else {
                (resource.width, resource.height)
            },
            None => (resource.width, resource.height),
        }
    }

    /// The present plumbing after a round, and the device with it.
    pub open spec fn present_round(self, cookies: Seq<u64>, shown: Seq<u32>, now: u64) -> Self {
        GpuView {
            present: match self.present {
                Some(p) => Some(p.retire_all(cookies).shown_all(shown).settle(now)),
                None => None,
            },
            ..self
        }
    }
}

impl VirtioGpu {
    /// The guest memory to gather for a software-2D resource.
    pub fn sw2d_wanted(&self, resource_id: u32) -> (r: Option<Vec<(u64, usize)>>)
        ensures
            match r {
                Some(w) => self@.sw2d.contains_key(resource_id) && w@
                    == self@.sw2d[resource_id].wanted(),
                None => !self@.sw2d.contains_key(resource_id),
            },
    {
        match ordered::get32(&self.sw2d, resource_id) {
            Some(sw) => Some(sw.wanted()),
            None => None,
        }
    }

    /// The gathered guest memory goes into the software-2D resource's pixels.
    pub fn sw2d_fill(&mut self, resource_id: u32, bytes: &[u8])
        requires
            old(self)@.wf(),
        ensures
            final(self)@.wf(),
            final(self)@ == if old(self)@.sw2d.contains_key(resource_id) {
                old(self)@.with_sw2d(
                    resource_id,
                    old(self)@.sw2d[resource_id].filled(bytes@),
                )
            } else {
                old(self)@
            },
    {
        match ordered::remove32(&mut self.sw2d, resource_id) {
            Some(mut sw) => {
                sw.copy_from_backing(bytes);
                let ghost v = sw@;
                ordered::insert32(&mut self.sw2d, resource_id, sw);
                assert(sw2d_view(self.sw2d@) =~= sw2d_view(old(self).sw2d@).insert(resource_id, v));
            },
            None => {
                assert(self.sw2d@ =~= old(self).sw2d@);
            },
        }
    }

    /// The guest memory that backs a software-2D resource from now on. False for a resource that
    /// is not one.
    pub fn sw2d_set_backing(&mut self, resource_id: u32, backing: &Vec<(u64, usize)>) -> (r: bool)
        requires
            old(self)@.wf(),
        ensures
            final(self)@.wf(),
            r == old(self)@.sw2d.contains_key(resource_id),
            final(self)@ == if r {
                old(self)@.with_sw2d(
                    resource_id,
                    Sw2dView { backing: backing@, ..old(self)@.sw2d[resource_id] },
                )
            } else {
                old(self)@
            },
    {
        match ordered::remove32(&mut self.sw2d, resource_id) {
            Some(mut sw) => {
                sw.backing = copy_ranges(backing);
                let ghost v = sw@;
                ordered::insert32(&mut self.sw2d, resource_id, sw);
                assert(sw2d_view(self.sw2d@) =~= sw2d_view(old(self).sw2d@).insert(resource_id, v));
                true
            },
            None => {
                assert(self.sw2d@ =~= old(self).sw2d@);
                false
            },
        }
    }

    /// Copies a software-2D resource's pixels into a frame that is `scan_w` pixels wide: the
    /// top-left rectangle, row by row where the resource is wider.
    pub fn blit_frame(
        &self,
        resource_id: u32,
        src_w: u32,
        scan_w: u32,
        scan_h: u32,
        buffer: &mut [u8],
    ) -> (r: bool)
        requires
            src_w * BYTES_PER_PIXEL <= usize::MAX,
            scan_w * BYTES_PER_PIXEL <= usize::MAX,
        ensures
            r == self@.sw2d.contains_key(resource_id),
            r ==> scanout::blitted(
                old(buffer)@,
                final(buffer)@,
                (scan_w * BYTES_PER_PIXEL) as nat,
                self@.sw2d[resource_id].host,
                (src_w * BYTES_PER_PIXEL) as nat,
                scan_h as nat,
            ),
            !r ==> final(buffer)@ == old(buffer)@,
    {
        match ordered::get32(&self.sw2d, resource_id) {
            Some(sw) => {
                blit_scanout_rect(
                    buffer,
                    scan_w as usize * BYTES_PER_PIXEL,
                    sw.host.as_slice(),
                    src_w as usize * BYTES_PER_PIXEL,
                    scan_h as usize,
                );
                true
            },
            None => false,
        }
    }

    /// The size of the frame that a scanout reads back.
    pub fn scan_size(&self, scanout_id: u32, resource: &VirtioGpuResource) -> (r: (u32, u32))
        requires
            self@.wf(),
            scanout_id < VIRTIO_GPU_MAX_SCANOUTS,
        ensures
            r == self@.scan_size(scanout_id, *resource),
    {
        match self.scanouts[scanout_id as usize] {
            Some(s) => if s.width != 0 && s.height != 0 {
                (s.width, s.height)
            } else {
                (resource.width, resource.height)
            },
            None => (resource.width, resource.height),
        }
    }

    /// A uuid for the resource: its id, which is all that the guest makes of it.
    pub fn resource_assign_uuid(&self, resource_id: u32) -> (r: VirtioGpuResult)
        ensures
            protocol::result_view(r) == if self@.resources.contains_key(resource_id) {
                Ok::<GpuResponseView, GpuResponseView>(
                    GpuResponseView::OkResourceUuid { uuid: uuid_of(resource_id) },
                )
            } else {
                Err(GpuResponseView::ErrInvalidResourceId)
            },
    {
        if self.resource(resource_id).is_none() {
            return Err(GpuResponse::ErrInvalidResourceId);
        }
        let uuid: [u8; 16] = [
            0, 0, 0, 0, 0, 0, 0, 0, 0, 0, 0, 0,
            ((resource_id >> 24) & 0xff) as u8,
            ((resource_id >> 16) & 0xff) as u8,
            ((resource_id >> 8) & 0xff) as u8,
            (resource_id & 0xff) as u8,
        ];
        assert(uuid@ =~= uuid_of(resource_id));
        Ok(GpuResponse::OkResourceUuid { uuid })
    }

    /// The capability sets that a renderer with these flags backs: the Vulkan one where it is
    /// switched on, the GL ones unless they are switched off.
    pub fn capset_mask_from_virgl_flags(virgl_flags: u32) -> (mask: u64)
        ensures
            mask == capset_mask(virgl_flags),
    {
        let venus: u64 = if virgl_flags & VIRGLRENDERER_VENUS != 0 {
            1u64 << CAPSET_VENUS
        } else {
            0
        };
        let virgl: u64 = if virgl_flags & VIRGLRENDERER_NO_VIRGL == 0 {
            (1u64 << CAPSET_VIRGL) | (1u64 << CAPSET_VIRGL2)
        } else {
            0
        };
        venus | virgl
    }

    /// The renderer created a context. From the first one of the GL renderer on, fences on the
    /// device's own ring complete on the renderer's timeline.
    pub fn context_created(&mut self, context_init: u32)
        requires
            old(self)@.wf(),
        ensures
            final(self)@ == old(self)@.context_created(context_init),
            final(self)@.wf(),
    {
        if context_init & 0xff != CAPSET_VENUS {
            self.vrend_ctx_seen = true;
        }
    }

    /// Where in the guest a blob goes that is to be mapped at `offset` of the shared region, if
    /// it fits there.
    pub fn map_addr(&self, resource: &VirtioGpuResource, offset: u64) -> (r: Option<u64>)
        ensures
            r == if offset + resource.size <= self@.shm.size && self@.shm.guest_addr + offset
                <= u64::MAX {
                Some((self@.shm.guest_addr + offset) as u64)
            } else {
                None
            },
    {
        checked_blob_map_addr(
            self.shm.guest_addr,
            offset,
            resource.size,
            self.shm.size as u64,
        )
    }

    /// The blob was mapped at an address that `map_addr` gave, or unmapped.
    pub fn set_mapping(&mut self, resource_id: u32, offset: Option<u64>)
        requires
            old(self)@.wf(),
            old(self)@.resources.contains_key(resource_id),
            offset matches Some(o) ==> old(self)@.map_addr(resource_id, o) is Some,
        ensures
            final(self)@ == old(self)@.mapped(resource_id, offset),
            final(self)@.wf(),
    {
        match self.resource(resource_id) {
            Some(mut r) => {
                r.shmem_offset = offset;
                ordered::insert32(&mut self.resources, resource_id, r);
            },
            None => {},
        }
    }

    /// Where the blob is mapped. It is refused when it is not.
    pub fn mapping(&self, resource_id: u32) -> (r: Result<(u64, u64), GpuResponse>)
        requires
            self@.wf(),
        ensures
            match r {
                Ok((addr, size)) => {
                    &&& self@.resources.contains_key(resource_id)
                    &&& self@.resources[resource_id].shmem_offset matches Some(o)
                    &&& addr == self@.shm.guest_addr + o
                    &&& size == self@.resources[resource_id].size
                },
                Err(e) => if !self@.resources.contains_key(resource_id) {
                    e@ == GpuResponseView::ErrInvalidResourceId
                } else {
                    e@ == GpuResponseView::ErrUnspec
                        && self@.resources[resource_id].shmem_offset is None
                },
            },
    {
        match self.resource(resource_id) {
            Some(r) => match r.shmem_offset {
                Some(o) => Ok((self.shm.guest_addr + o, r.size)),
                None => Err(GpuResponse::ErrUnspec),
            },
            None => Err(GpuResponse::ErrInvalidResourceId),
        }
    }

    /// A guest fence behind a command: says who completes it. A flush whose frames were parked
    /// holds its fence until they are shown. Before the GL renderer has a context all work on the
    /// device's own ring is done when its command is answered, and so is its fence.
    pub fn create_fence(
        &mut self,
        fence_state: &mut FenceState,
        fence: RendererFence,
        is_flush: bool,
        now_ns: u64,
    ) -> (route: FenceRoute)
        requires
            old(self)@.wf(),
            now_ns + HOLD_CEILING_NS <= u64::MAX,
        ensures
            (final(self)@, route) == old(self)@.route_fence(fence, is_flush, now_ns),
            final(self)@.wf(),
            final(fence_state).pending() == old(fence_state).pending(),
            if route is Sync {
                old(fence_state).raised(*final(fence_state), fence::ring_of(fence), fence.fence_id)
            } else {
                forall|r: VirtioGpuRing| #[trigger]
                    final(fence_state).watermark(r) == old(fence_state).watermark(r)
            },
    {
        self.journal.count_fence_requested();
        let held: Option<u64> = match &mut self.present_fence {
            Some(p) => p.hold_flush_fence(fence, is_flush, now_ns),
            None => None,
        };
        match held {
            Some(deadline_ns) => FenceRoute::Held { deadline_ns },
            None => {
                let context_ring: bool = fence.flags & VIRTIO_GPU_FLAG_INFO_RING_IDX != 0;
                if self.renderer && context_ring {
                    FenceRoute::Renderer
                } else if self.renderer && self.vrend_ctx_seen {
                    FenceRoute::RendererOrSync
                } else {
                    mark_fence_completed_sync(fence_state, &fence);
                    FenceRoute::Sync
                }
            },
        }
    }

    /// Parks a descriptor until its fence completes, or says that it already has; then it counts
    /// as retired.
    pub fn process_fence(
        &mut self,
        fence_state: &mut FenceState,
        ring: VirtioGpuRing,
        fence_id: u64,
        desc_index: u16,
        len: u32,
        now_ns: u64,
    ) -> (done: bool)
        requires
            old(self)@.wf(),
        ensures
            final(self)@.wf(),
            done == (fence_id <= old(fence_state).watermark(ring)),
            final(fence_state).pending() == if done {
                old(fence_state).pending()
            } else {
                old(fence_state).pending().push(
                    FenceDescriptor { ring, fence_id, desc_index, len, created_ns: now_ns },
                )
            },
            forall|r: VirtioGpuRing| #[trigger]
                final(fence_state).watermark(r) == old(fence_state).watermark(r),
            final(self)@ == if done {
                GpuView {
                    journal: old(self)@.journal.with_trace(
                        GpuTraceStats {
                            fences_retired: old(
                                self,
                            )@.journal.trace.fences_retired.wrapping_add(1),
                            ..old(self)@.journal.trace
                        },
                    ),
                    ..old(self)@
                }
            } else {
                old(self)@
            },
    {
        let done: bool = fence_state.process_fence(ring, fence_id, desc_index, len, now_ns);
        if done {
            self.journal.count_fence_retired();
        }
        done
    }

    /// A round of presents: what to show and what to do about held fences.
    pub fn process_retired_presents(&mut self, cookies: &[u64], shown: &[u32], now_ns: u64) -> (r:
        PresentRound)
        requires
            old(self)@.wf(),
            now_ns + ACK_FALLBACK_NS <= u64::MAX,
            old(self)@.present matches Some(p) ==> now_ns + p.latch_delay_ns <= u64::MAX,
        ensures
            final(self)@ == old(self)@.present_round(cookies@, shown@, now_ns),
            final(self)@.wf(),
            match old(self)@.present {
                Some(p) => {
                    let before = p.retire_all(cookies@).shown_all(shown@);
                    &&& r.hits@ == p.hits(cookies@)
                    &&& r.actions@ == before.hold_actions(now_ns, before.holds.len())
                },
                None => r.hits@.len() == 0 && r.actions@.len() == 0,
            },
    {
        match &mut self.present_fence {
            Some(p) => p.process_retired_presents(cookies, shown, now_ns),
            None => PresentRound { hits: Vec::new(), actions: Vec::new() },
        }
    }

    /// Drops the present bookkeeping that only looks forward; how many of each kind there were.
    pub fn discard_stale_present_bookkeeping(&mut self) -> (r: (usize, usize))
        requires
            old(self)@.wf(),
        ensures
            final(self)@.wf(),
            match old(self)@.present {
                Some(p) => {
                    &&& r.0 == p.flush_cookies.len()
                    &&& r.1 == p.awaiting.len()
                    &&& final(self)@ == (GpuView {
                        present: Some(
                            PresentView {
                                flush_cookies: Seq::empty(),
                                awaiting: Seq::empty(),
                                ..p
                            },
                        ),
                        ..old(self)@
                    })
                },
                None => r == (0usize, 0usize) && final(self)@ == old(self)@,
            },
    {
        match &mut self.present_fence {
            Some(p) => p.discard_stale_present_bookkeeping(),
            None => (0, 0),
        }
    }

    /// Forgets the session: resources, scanouts, journal, cursor, parked frames and every fence
    /// that a descriptor waited for. The renderer, the displays and the counters stay.
    pub fn reset_session(&mut self, fence_state: &mut FenceState)
        requires
            old(self)@.wf(),
        ensures
            final(self)@ == old(self)@.reset_session(),
            final(self)@.wf(),
            final(fence_state).pending() == Seq::<FenceDescriptor>::empty(),
            forall|r: VirtioGpuRing| #[trigger] final(fence_state).watermark(r) == 0,
    {
        self.resources.clear();
        self.sw2d.clear();
        assert(sw2d_view(self.sw2d@) =~= Map::empty());
        self.scanouts = no_scanouts();
        self.journal.reset();
        self.cursor_state = None;
        self.vrend_ctx_seen = false;
        fence_state.clear();
        match &mut self.present_fence {
            Some(p) => {
                p.reset();
            },
            None => {},
        }
    }

    /// How many fences the guest waits for, and a line about them.
    pub fn outstanding_fences(fence_state: &FenceState, now_ns: u64) -> (r: (usize, String))
        ensures
            r.0 == fence_state.pending().len(),
            r.1@ == fence::summary_text(fence_state.pending(), now_ns),
    {
        (fence_state.outstanding(), fence_state.outstanding_summary(now_ns))
    }

    /// The re-creation journal, to record in.
    pub fn journal_mut(&mut self) -> (r: &mut GpuJournal)
        ensures
            r@ == old(self)@.journal,
            final(self)@ == (GpuView { journal: final(r)@, ..old(self)@ }),
    {
        &mut self.journal
    }

    /// The re-creation journal.
    pub fn journal(&self) -> (r: &GpuJournal)
        ensures
            r@ == self@.journal,
    {
        &self.journal
    }

    /// Takes the journal out while a restore runs, so that what the restore carries out is not
    /// recorded a second time. A new one stands in for it.
    pub fn begin_replay(&mut self) -> (journal: GpuJournal)
        requires
            old(self)@.wf(),
        ensures
            journal@ == old(self)@.journal,
            final(self)@ == (GpuView {
                journal: JournalView {
                    entries: Seq::empty(),
                    seq_next: 1,
                    recorded: 0,
                    pruned: 0,
                    trace: old(self)@.journal.trace,
                },
                ..old(self)@
            }),
            final(self)@.wf(),
    {
        let mut journal: GpuJournal = GpuJournal::new(*self.journal.trace());
        std::mem::swap(&mut journal, &mut self.journal);
        journal
    }

    /// Puts the journal back after a restore. One that succeeded makes the restored ops its own:
    /// the re-created world is theirs.
    pub fn end_replay(&mut self, journal: GpuJournal, restored: Option<Vec<GpuJournalEntry>>)
        requires
            old(self)@.wf(),
            journal@.wf(),
            restored matches Some(ops) ==> journal@.recorded + ops@.len() <= u64::MAX && forall|
                i: int,
            |
                0 <= i < ops@.len() ==> (#[trigger] ops@[i]).seq < u64::MAX,
        ensures
            final(self)@.wf(),
            match restored {
                Some(ops) => {
                    let v = gpu_snapshot::ops_view(ops@);
                    final(self)@ == (GpuView {
                        journal: JournalView {
                            entries: v,
                            seq_next: journal::highest_seq(v) + 1,
                            recorded: journal@.recorded + v.len(),
                            pruned: journal@.pruned,
                            trace: journal@.trace,
                        }.traced(),
                        ..old(self)@
                    })
                },
                None => final(self)@ == (GpuView { journal: journal@, ..old(self)@ }),
            },
    {
        self.journal = journal;
        if let Some(ops) = restored {
            self.journal.restore_entries(ops);
        }
    }

    /// The probe counters.
    pub fn trace(&self) -> (r: &GpuTraceStats)
        ensures
            *r == self@.journal.trace,
    {
        self.journal.trace()
    }

    /// The cursor overlay as last handed to the display.
    pub fn cursor(&self) -> (r: &Option<CursorSnapshot>)
        ensures
            match *r {
                Some(c) => self@.cursor == Some(c@),
                None => self@.cursor is None,
            },
    {
        &self.cursor_state
    }
}

/// A copy of a list of guest memory ranges.
pub fn copy_ranges(ranges: &Vec<(u64, usize)>) -> (r: Vec<(u64, usize)>)
    ensures
        r@ == ranges@,
{
    let mut r: Vec<(u64, usize)> = Vec::with_capacity(ranges.len());
    let mut i: usize = 0;
    while i < ranges.len()
        invariant
            i <= ranges@.len(),
            r@ == ranges@.take(i as int),
        decreases ranges@.len() - i,
    {
        r.push(ranges[i]);
        i = i + 1;
        assert(r@ =~= ranges@.take(i as int));
    }
    assert(r@ =~= ranges@);
    r
}

/// The same request, or the same refusal.
pub open spec fn same_request<T>(
    r: Result<T, GpuResponse>,
    want: Result<T, GpuResponseView>,
) -> bool {
    match (r, want) {
        (Ok(a), Ok(b)) => a == b,
        (Err(a), Err(b)) => a@ == b,
        _ => false,
    }
}

/// As many empty scanouts as there can be.
fn no_scanouts() -> (r: Vec<Option<VirtioGpuScanout>>)
    ensures
        r@ == Seq::new(VIRTIO_GPU_MAX_SCANOUTS as nat, |i: int| None::<VirtioGpuScanout>),
{
    let mut r: Vec<Option<VirtioGpuScanout>> = Vec::new();
    let mut i: u32 = 0;
    while i < VIRTIO_GPU_MAX_SCANOUTS
        invariant
            i <= VIRTIO_GPU_MAX_SCANOUTS,
            r@ == Seq::new(i as nat, |i: int| None::<VirtioGpuScanout>),
        decreases VIRTIO_GPU_MAX_SCANOUTS - i,
    {
        r.push(None);
        i = i + 1;
        assert(r@ =~= Seq::new(i as nat, |i: int| None::<VirtioGpuScanout>));
    }
    r
}

} // verus!
