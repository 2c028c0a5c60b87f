//! A command as a machine of steps: what the renderer, the display, the hypervisor or guest memory
//! is asked, and where the command goes on with the answer.
use crate::gpu::fence::RendererFence;
use crate::gpu::present::Rect;
use crate::gpu::protocol;
use crate::gpu::protocol::{
    DisplayError, GpuResponse, GpuResponseView, RendererError, ResourceFormat, VirtioGpuResult,
};
use crate::gpu::resource::VirtioGpuResource;
use crate::gpu::virtio_gpu::{ResourceCreate3D, ResourceCreateBlob, ResourceQuery, Transfer3D};
use vstd::prelude::*;

verus! {

/// What is asked outside. Bulk data of a request stands in its command's `Bulk`.
#[derive(Clone, Copy, PartialEq, Eq, Structural, Debug)]
#[allow(inconsistent_fields)]
pub enum Request {
    /// The EDID of a display.
    Edid { scanout_id: u32 },
    /// Whether every one of the ranges lies in guest memory.
    CheckGuest,
    /// The bytes of the ranges in guest memory, one after another.
    ReadGuest,
    // The renderer.
    CreateResource3d { resource_id: u32, create: ResourceCreate3D },
    /// The backing is the command's ranges, where it has one.
    CreateBlob { ctx_id: u32, resource_id: u32, create: ResourceCreateBlob, backed: bool },
    Query { resource_id: u32 },
    Unmap { resource_id: u32 },
    Unref { resource_id: u32 },
    AttachBacking { resource_id: u32 },
    DetachBacking { resource_id: u32 },
    TransferWrite { ctx_id: u32, resource_id: u32, transfer: Transfer3D },
    TransferRead { ctx_id: u32, resource_id: u32, transfer: Transfer3D },
    CapsetInfo { index: u32 },
    Capset { capset_id: u32, version: u32 },
    CreateContext { ctx_id: u32, context_init: u32 },
    DestroyContext { ctx_id: u32 },
    AttachResource { ctx_id: u32, resource_id: u32 },
    DetachResource { ctx_id: u32, resource_id: u32 },
    Submit { ctx_id: u32 },
    CreateFence { fence: RendererFence },
    /// The surface that backs a resource.
    Surface { resource_id: u32 },
    /// Brings a resource's surface up to date.
    SyncSurface { resource_id: u32 },
    /// The wire journal's last number in a context.
    JournalSeq { ctx_id: u32 },
    /// Releases what the wire journal keeps for a blob.
    JournalUnpin { ctx_id: u32, blob_id: u64 },
    MapInfo { resource_id: u32 },
    /// Where the renderer has a blob mapped in the host.
    MapPtr { resource_id: u32 },
    // The hypervisor.
    AddMapping { host_addr: u64, guest_addr: u64, size: u64 },
    RemoveMapping { guest_addr: u64, size: u64 },
    // The display.
    ConfigureScanout {
        scanout_id: u32,
        display_width: u32,
        display_height: u32,
        width: u32,
        height: u32,
        format: ResourceFormat,
    },
    DisableScanout { scanout_id: u32 },
    PresentSurface { scanout_id: u32, iosurface_id: u32, rect: Rect },
    /// A frame buffer to fill and present.
    AllocFrame { scanout_id: u32 },
    /// The frame gets a software-2D resource's pixels.
    FillFromSoftware { resource_id: u32, src_w: u32, scan_w: u32, scan_h: u32 },
    /// The frame gets a surface's pixels.
    FillFromSurface { resource_id: u32, stride: u32, rows: u32 },
    /// The frame gets what the renderer reads back of a resource.
    FillFromResource { resource_id: u32, transfer: Transfer3D },
    PresentFrame { scanout_id: u32, rect: Rect },
    /// The cursor image is the command's bytes; a cursor without any is hidden.
    SetCursor { width: u32, height: u32, hot_x: u32, hot_y: u32, format: ResourceFormat },
    MoveCursor { x: u32, y: u32 },
}

/// What comes back from outside.
pub enum Reply {
    Renderer(Result<(), RendererError>),
    Display(Result<(), DisplayError>),
    Bytes(Result<Vec<u8>, RendererError>),
    CapsetInfo(Result<(u32, u32, u32), RendererError>),
    Query(Option<ResourceQuery>),
    /// A number, where there is one: a surface, a journal number, flags or an address.
    Number(Option<u64>),
    Done(bool),
}

pub enum ReplyView {
    Renderer(Result<(), RendererError>),
    Display(Result<(), DisplayError>),
    Bytes(Result<Seq<u8>, RendererError>),
    CapsetInfo(Result<(u32, u32, u32), RendererError>),
    Query(Option<ResourceQuery>),
    Number(Option<u64>),
    Done(bool),
}

impl View for Reply {
    type V = ReplyView;

    open spec fn view(&self) -> ReplyView {
        match *self {
            Reply::Renderer(r) => ReplyView::Renderer(r),
            Reply::Display(r) => ReplyView::Display(r),
            Reply::Bytes(Ok(b)) => ReplyView::Bytes(Ok(b@)),
            Reply::Bytes(Err(e)) => ReplyView::Bytes(Err(e)),
            Reply::CapsetInfo(r) => ReplyView::CapsetInfo(r),
            Reply::Query(q) => ReplyView::Query(q),
            Reply::Number(n) => ReplyView::Number(n),
            Reply::Done(b) => ReplyView::Done(b),
        }
    }
}

/// A scanout's binding, as a command asks for it.
#[derive(Clone, Copy, PartialEq, Eq, Structural, Debug)]
pub struct Binding {
    pub scanout_id: u32,
    pub resource_id: u32,
    pub width: u32,
    pub height: u32,
    /// The format of a blob's binding; a binding of another resource names none.
    pub format: Option<u32>,
}

/// A flush that is under way.
#[derive(Clone, Copy, PartialEq, Eq, Structural, Debug)]
pub struct Flush {
    pub resource_id: u32,
    pub rect: Rect,
    pub resource: VirtioGpuResource,
    /// Whether frames are parked until the rendering behind them completes.
    pub armed: bool,
}

/// How far a flush is with one scanout.
#[derive(Clone, Copy, PartialEq, Eq, Structural, Debug)]
pub enum FlushAt {
    /// The scanout's surface is brought up to date.
    Sync { iosurface_id: u32 },
    /// The parked frame's fence is injected.
    Fence { iosurface_id: u32, cookie: u64 },
    /// The surface is presented.
    Surface,
    /// A frame is asked for.
    Alloc,
    /// The frame is filled.
    Fill,
    /// The frame is presented.
    Present,
}

/// A cursor image on its way to the display.
#[derive(Clone, Copy, PartialEq, Eq, Structural, Debug)]
pub struct CursorPlan {
    pub scanout_id: u32,
    pub width: u32,
    pub height: u32,
    pub hot_x: u32,
    pub hot_y: u32,
    pub format: ResourceFormat,
    pub x: u32,
    pub y: u32,
}

/// Where a command goes on with the answer to its request.
#[derive(Clone, Copy, PartialEq, Eq, Structural, Debug)]
#[allow(inconsistent_fields)]
pub enum Stage {
    /// The renderer's verdict is the answer.
    Verdict,
    /// The answer stands already.
    Settled,
    Edid,
    CapsetInfo,
    Capset,
    /// The resource's planes are the answer.
    Queried,
    UnrefUnmap { resource_id: u32 },
    Unref { resource_id: u32 },
    ScanoutOff { binding: Binding },
    ScanoutOn { binding: Binding },
    ScanoutSurface { binding: Binding },
    Flush { flush: Flush, scanout_id: u32, at: FlushAt },
    Gather { resource_id: u32 },
    CheckBacking { resource_id: u32 },
    AttachBacking { resource_id: u32 },
    DetachBacking { resource_id: u32 },
    HideCursor,
    SetCursor { plan: CursorPlan },
    PlaceCursor { plan: CursorPlan },
    MoveCursor { x: u32, y: u32 },
    CreateContext { ctx_id: u32, context_init: u32 },
    DestroyContext { ctx_id: u32 },
    AttachResource { ctx_id: u32, resource_id: u32 },
    DetachResource { ctx_id: u32, resource_id: u32 },
    Create3d { resource_id: u32, create: ResourceCreate3D },
    CheckBlob { ctx_id: u32, resource_id: u32, create: ResourceCreateBlob },
    CreateBlob { ctx_id: u32, resource_id: u32, create: ResourceCreateBlob },
    BlobSeq { ctx_id: u32, resource_id: u32, create: ResourceCreateBlob },
    MapInfo { resource_id: u32, offset: u64 },
    MapPtr { resource_id: u32, offset: u64, map_info: u32 },
    AddMapping { resource_id: u32, offset: u64, map_info: u32 },
    RemoveMapping { resource_id: u32 },
}

/// A command's bulk data.
pub struct Bulk {
    pub bytes: Vec<u8>,
    /// Guest memory ranges: addresses and lengths.
    pub ranges: Vec<(u64, usize)>,
    pub ids: Vec<u64>,
    pub name: Option<String>,
}

pub struct BulkView {
    pub bytes: Seq<u8>,
    pub ranges: Seq<(u64, usize)>,
    pub ids: Seq<u64>,
    pub name: Option<Seq<char>>,
}

impl View for Bulk {
    type V = BulkView;

    open spec fn view(&self) -> BulkView {
        BulkView {
            bytes: self.bytes@,
            ranges: self.ranges@,
            ids: self.ids@,
            name: match self.name {
                Some(n) => Some(n@),
                None => None,
            },
        }
    }
}

impl BulkView {
    pub open spec fn none() -> Self {
        BulkView {
            bytes: Seq::empty(),
            ranges: Seq::empty(),
            ids: Seq::empty(),
            name: None,
        }
    }
}

impl Bulk {
    /// No bulk data.
    pub fn none() -> (r: Self)
        ensures
            r@ == BulkView::none(),
    {
        Bulk { bytes: Vec::new(), ranges: Vec::new(), ids: Vec::new(), name: None }
    }

    /// Guest memory ranges only.
    pub fn of_ranges(ranges: Vec<(u64, usize)>) -> (r: Self)
        ensures
            r@ == (BulkView { ranges: ranges@, ..BulkView::none() }),
    {
        Bulk { bytes: Vec::new(), ranges, ids: Vec::new(), name: None }
    }

    /// Bytes only.
    pub fn of_bytes(bytes: Vec<u8>) -> (r: Self)
        ensures
            r@ == (BulkView { bytes: bytes@, ..BulkView::none() }),
    {
        Bulk { bytes, ranges: Vec::new(), ids: Vec::new(), name: None }
    }
}

/// A command that waits for an answer from outside.
pub struct Pending {
    pub request: Request,
    pub stage: Stage,
    pub data: Bulk,
}

/// A command's next step: its answer, or a request.
pub enum Step {
    Done(VirtioGpuResult),
    Ask(Pending),
}

pub enum StepView {
    Done(Result<GpuResponseView, GpuResponseView>),
    Ask { request: Request, stage: Stage, data: BulkView },
}

impl View for Step {
    type V = StepView;

    open spec fn view(&self) -> StepView {
        match *self {
            Step::Done(r) => StepView::Done(protocol::result_view(r)),
            Step::Ask(p) => StepView::Ask { request: p.request, stage: p.stage, data: p.data@ },
        }
    }
}

impl StepView {
    /// Carried out, with nothing to say.
    pub open spec fn ok() -> Self {
        StepView::Done(protocol::plain_ok())
    }

    /// Refused.
    pub open spec fn refused(e: GpuResponseView) -> Self {
        StepView::Done(Err(e))
    }

    /// A request without bulk data.
    pub open spec fn ask(request: Request, stage: Stage) -> Self {
        StepView::Ask { request, stage, data: BulkView::none() }
    }
}

impl Step {
    /// Carried out, with nothing to say.
    pub fn ok() -> (r: Self)
        ensures
            r@ == StepView::ok(),
    {
        Step::Done(Ok(GpuResponse::OkNoData))
    }

    /// Refused.
    pub fn refused(e: GpuResponse) -> (r: Self)
        ensures
            r@ == StepView::refused(e@),
    {
        Step::Done(Err(e))
    }

    /// A request without bulk data.
    pub fn ask(request: Request, stage: Stage) -> (r: Self)
        ensures
            r@ == StepView::ask(request, stage),
    {
        Step::Ask(Pending { request, stage, data: Bulk::none() })
    }

    /// A request with bulk data.
    pub fn ask_with(request: Request, stage: Stage, data: Bulk) -> (r: Self)
        ensures
            r@ == (StepView::Ask { request, stage, data: data@ }),
    {
        Step::Ask(Pending { request, stage, data })
    }
}

} // verus!
