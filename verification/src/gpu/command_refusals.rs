//! What a command is refused for, and what a command leaves alone.
use crate::gpu::command::GpuCommand;
use crate::gpu::device::DeviceView;
use crate::gpu::fence::FenceState;
use crate::gpu::payload;
use crate::gpu::protocol::{DisplayError, GpuResponseView, RendererError, ResourceFormat};
use crate::gpu::scanout;
use crate::gpu::step::{Binding, BulkView, ReplyView, Request, Stage, StepView};
use crate::gpu::virtio_gpu::{GpuView, ResourceCreate3D, ResourceCreateBlob, Transfer3D};
use crate::gpu::worker;
use crate::gpu::worker::{InnerExit, WorkerCmd};
use vstd::prelude::*;

verus! {

/// The command is answered with this refusal.
pub open spec fn refused(step: StepView, e: GpuResponseView) -> bool {
    step == StepView::Done(Err(e))
}

/// Without a renderer, whatever only a renderer can do is refused, and nothing changes.
pub proof fn law_refused_without_a_renderer(
    gpu: GpuView,
    ctx_id: u32,
    resource_id: u32,
    n: u32,
    name: [u8; 64],
    create: ResourceCreate3D,
    transfer: Transfer3D,
)
    requires
        !gpu.renderer,
        !gpu.sw2d.contains_key(resource_id),
    ensures
        ({
            let no = (gpu, StepView::Done(Err(GpuResponseView::ErrUnspec)));
            let none = Seq::<u8>::empty();
            &&& gpu.begin(
                ctx_id,
                GpuCommand::CtxCreate { context_init: n, debug_name: name },
                none,
                false,
            ) == no
            &&& gpu.begin(ctx_id, GpuCommand::CtxDestroy, none, false) == no
            &&& gpu.begin(ctx_id, GpuCommand::CtxAttachResource { resource_id }, none, false) == no
            &&& gpu.begin(ctx_id, GpuCommand::CtxDetachResource { resource_id }, none, false) == no
            &&& gpu.begin(ctx_id, GpuCommand::ResourceCreate3d { resource_id, create }, none, false)
                == no
            &&& gpu.begin(
                ctx_id,
                GpuCommand::TransferToHost3d { resource_id, transfer },
                none,
                false,
            ) == no
            &&& gpu.begin(
                ctx_id,
                GpuCommand::TransferFromHost3d { resource_id, transfer },
                none,
                false,
            ) == no
            &&& gpu.begin(ctx_id, GpuCommand::ResourceDetachBacking { resource_id }, none, false)
                == no
            &&& gpu.begin(ctx_id, GpuCommand::GetCapsetInfo { capset_index: n }, none, false) == no
            &&& gpu.begin(
                ctx_id,
                GpuCommand::GetCapset { capset_id: n, capset_version: n },
                none,
                false,
            ) == no
        }),
{
}

/// A command whose payload is cut short is refused, and nothing changes but the count of
/// submissions. So is one that puts no memory at all behind a resource.
pub proof fn law_short_payloads_are_refused(
    gpu: GpuView,
    ctx_id: u32,
    resource_id: u32,
    create: ResourceCreateBlob,
    n: u32,
    size: u32,
    bytes: Seq<u8>,
)
    ensures
        payload::mem_entries(bytes, n) is None ==> gpu.begin(
            ctx_id,
            GpuCommand::ResourceAttachBacking { resource_id, nr_entries: n },
            bytes,
            false,
        ) == (gpu, StepView::Done(Err(GpuResponseView::ErrUnspec))),
        bytes.len() == 0 ==> gpu.begin(
            ctx_id,
            GpuCommand::ResourceAttachBacking { resource_id, nr_entries: n },
            bytes,
            false,
        ) == (gpu, StepView::Done(Err(GpuResponseView::ErrUnspec))),
        payload::mem_entries(bytes, n) is None ==> gpu.begin(
            ctx_id,
            GpuCommand::ResourceCreateBlob { resource_id, create, nr_entries: n },
            bytes,
            false,
        ) == (gpu, StepView::Done(Err(GpuResponseView::ErrUnspec))),
        bytes.len() > 0 && payload::submission(bytes, n, size) is Err ==> refused(
            gpu.begin(
                ctx_id,
                GpuCommand::CmdSubmit3d { size, num_in_fences: n },
                bytes,
                false,
            ).1,
            payload::submission(bytes, n, size)->Err_0,
        ),
{
}

/// A picture of a format that there is not, or of more bytes than can be counted, is not made.
pub proof fn law_impossible_pictures_are_refused(
    gpu: GpuView,
    ctx_id: u32,
    resource_id: u32,
    format: u32,
    width: u32,
    height: u32,
)
    requires
        ResourceFormat::of_code(format) is None || width * height * 4 > usize::MAX,
    ensures
        gpu.begin(
            ctx_id,
            GpuCommand::ResourceCreate2d { resource_id, format, width, height },
            Seq::empty(),
            false,
        ) == (gpu, StepView::Done(Err(GpuResponseView::ErrUnspec))),
{
}

/// A scanout that there is not is refused, and so is a resource that there is not; what the display
/// refuses is not bound and not journaled. A mapping that there is not cannot be taken away.
pub proof fn law_impossible_scanouts_are_refused(
    gpu: GpuView,
    ctx_id: u32,
    scanout_id: u32,
    resource_id: u32,
    width: u32,
    height: u32,
    format: Option<u32>,
    e: DisplayError,
)
    ensures
        ({
            let b = Binding { scanout_id, resource_id, width, height, format };
            let (after, step) = gpu.cmd_scanout(b);
            let free = gpu.release_scanout(scanout_id);
            &&& scanout_id >= 16 ==> after == gpu && refused(
                step,
                GpuResponseView::ErrInvalidScanoutId,
            )
            &&& scanout_id < 16 && resource_id != 0 && !gpu.resources.contains_key(resource_id)
                ==> refused(step, GpuResponseView::ErrInvalidResourceId) && after.scanouts
                == gpu.scanouts && after.journal == gpu.journal
            &&& gpu.resume(
                Stage::ScanoutOn { binding: b },
                BulkView::none(),
                ReplyView::Display(Err(e)),
            ) == (gpu, StepView::Done(Err(GpuResponseView::ErrDisplay(e))))
            &&& gpu.resume(
                Stage::ScanoutOff { binding: b },
                BulkView::none(),
                ReplyView::Display(Err(e)),
            ) == (gpu, StepView::Done(Err(GpuResponseView::ErrDisplay(e))))
            &&& gpu.resources.contains_key(resource_id)
                && gpu.resources[resource_id].shmem_offset is None ==> refused(
                gpu.begin(
                    ctx_id,
                    GpuCommand::ResourceUnmapBlob { resource_id },
                    Seq::empty(),
                    false,
                ).1,
                GpuResponseView::ErrUnspec,
            )
        }),
{
}

/// Without a renderer a scanout has no surface: it is bound as soon as the display agrees.
pub proof fn law_software_scanouts_have_no_surface(
    gpu: GpuView,
    scanout_id: u32,
    resource_id: u32,
    width: u32,
    height: u32,
)
    requires
        !gpu.renderer,
        scanout_id < 16,
        gpu.scanouts.len() == 16,
    ensures
        ({
            let b = Binding { scanout_id, resource_id, width, height, format: None };
            let (after, step) = gpu.resume(
                Stage::ScanoutOn { binding: b },
                BulkView::none(),
                ReplyView::Display(Ok(())),
            );
            &&& step == StepView::Done(Ok(GpuResponseView::OkNoData))
            &&& after.scanouts[scanout_id as int] matches Some(s)
            &&& s.resource_id == resource_id && s.width == width && s.height == height
            &&& s.iosurface_id is None
        }),
{
}

/// The steps of a mapping that the renderer or the host cannot do end it, and nothing is mapped.
pub proof fn law_failed_mappings_leave_nothing(gpu: GpuView, resource_id: u32, offset: u64, n: u32)
    ensures
        ({
            let no = (gpu, StepView::Done(Err(GpuResponseView::ErrUnspec)));
            let data = BulkView::none();
            &&& gpu.resume(
                Stage::MapInfo { resource_id, offset },
                data,
                ReplyView::Number(None),
            ) == no
            &&& gpu.resume(
                Stage::MapPtr { resource_id, offset, map_info: n },
                data,
                ReplyView::Number(None),
            ) == no
            &&& gpu.resume(
                Stage::AddMapping { resource_id, offset, map_info: n },
                data,
                ReplyView::Done(false),
            ) == no
            &&& gpu.resume(Stage::RemoveMapping { resource_id }, data, ReplyView::Done(false)) == no
        }),
{
}

/// Guest memory that cannot be read leaves the picture as it was.
pub proof fn law_unreadable_memory_changes_no_picture(
    gpu: GpuView,
    resource_id: u32,
    e: RendererError,
)
    ensures
        gpu.resume(
            Stage::Gather { resource_id },
            BulkView::none(),
            ReplyView::Bytes(Err(e)),
        ) == (gpu, StepView::Done(Err(GpuResponseView::ErrUnspec))),
{
}

/// Only a picture can be a cursor. Its padding counts as alpha. What the display refuses is not
/// kept.
pub proof fn law_cursor_images(
    gpu: GpuView,
    ctx_id: u32,
    scanout_id: u32,
    resource_id: u32,
    e: DisplayError,
)
    requires
        resource_id != 0,
        e != DisplayError::MethodNotSupported,
    ensures
        ({
            let (after, step) = gpu.begin(
                ctx_id,
                GpuCommand::UpdateCursor {
                    scanout_id,
                    resource_id,
                    hot_x: 0,
                    hot_y: 0,
                    x: 0,
                    y: 0,
                },
                Seq::empty(),
                false,
            );
            &&& after == gpu
            &&& !gpu.resources.contains_key(resource_id) ==> refused(
                step,
                GpuResponseView::ErrInvalidResourceId,
            )
            &&& gpu.resources.contains_key(resource_id) && !gpu.sw2d.contains_key(resource_id)
                ==> refused(step, GpuResponseView::ErrUnspec)
            &&& gpu.resources.contains_key(resource_id) && gpu.sw2d.contains_key(resource_id) ==> {
                &&& step matches StepView::Ask {
                    request: Request::SetCursor { format, .. },
                    stage,
                    data,
                }
                &&& gpu.resources[resource_id].format == Some(ResourceFormat::BGRX) ==> format
                    == ResourceFormat::BGRA
                &&& gpu.resources[resource_id].format == Some(ResourceFormat::XRGB) ==> format
                    == ResourceFormat::ARGB
                &&& gpu.resources[resource_id].format == Some(ResourceFormat::RGBX) ==> format
                    == ResourceFormat::RGBA
                &&& gpu.resources[resource_id].format == Some(ResourceFormat::XBGR) ==> format
                    == ResourceFormat::ABGR
                &&& gpu.resources[resource_id].format is None ==> format == ResourceFormat::BGRA
                &&& (gpu.resources[resource_id].format matches Some(f) && (f == ResourceFormat::BGRA
                    || f == ResourceFormat::ARGB || f == ResourceFormat::RGBA || f
                    == ResourceFormat::ABGR)) ==> gpu.resources[resource_id].format == Some(format)
                &&& gpu.resume(stage, data, ReplyView::Display(Err(e))) == (
                    gpu,
                    StepView::Done(Err(GpuResponseView::ErrUnspec)),
                )
            }
        }),
{
}

/// The resource that a command is about.
pub open spec fn about(cmd: GpuCommand) -> Option<u32> {
    match cmd {
        GpuCommand::ResourceCreate2d { resource_id, .. } => Some(resource_id),
        GpuCommand::ResourceUnref { resource_id } => Some(resource_id),
        GpuCommand::SetScanout { resource_id, .. } => Some(resource_id),
        GpuCommand::SetScanoutBlob { resource_id, .. } => Some(resource_id),
        GpuCommand::ResourceDetachBacking { resource_id } => Some(resource_id),
        _ => None,
    }
}

/// The resource that a step is about.
pub open spec fn step_about(stage: Stage) -> Option<u32> {
    match stage {
        Stage::Gather { resource_id } => Some(resource_id),
        Stage::CheckBacking { resource_id } => Some(resource_id),
        Stage::Create3d { resource_id, .. } => Some(resource_id),
        Stage::CreateBlob { resource_id, .. } => Some(resource_id),
        Stage::AddMapping { resource_id, .. } => Some(resource_id),
        Stage::RemoveMapping { resource_id } => Some(resource_id),
        _ => None,
    }
}

/// A command leaves every resource alone that it is not about, and its pixels. Where it moves a
/// scanout, the resource that was shown before is shown there no longer; that is all that happens
/// to it.
#[verifier::rlimit(40)]
pub proof fn law_commands_leave_other_resources(
    gpu: GpuView,
    ctx_id: u32,
    cmd: GpuCommand,
    payload: Seq<u8>,
    other: u32,
)
    requires
        about(cmd) != Some(other),
        !(cmd is ResourceFlush),
    ensures
        ({
            let after = gpu.begin(ctx_id, cmd, payload, false).0;
            let was = gpu.resources[other];
            let r = after.resources[other];
            &&& after.resources.contains_key(other) == gpu.resources.contains_key(other)
            &&& after.sw2d.contains_key(other) == gpu.sw2d.contains_key(other)
            &&& gpu.sw2d.contains_key(other) ==> after.sw2d[other] == gpu.sw2d[other]
            &&& !(cmd is SetScanout) && !(cmd is SetScanoutBlob) ==> r == was
            &&& r.id == was.id && r.width == was.width && r.height == was.height && r.format
                == was.format && r.size == was.size && r.shmem_offset == was.shmem_offset && r.ctx_id
                == was.ctx_id
            &&& after.displays == gpu.displays
            &&& after.renderer == gpu.renderer
        }),
{
    match cmd {
        GpuCommand::SetScanout { .. } => {},
        GpuCommand::SetScanoutBlob { .. } => {},
        GpuCommand::ResourceUnref { .. } => {},
        GpuCommand::CmdSubmit3d { .. } => {},
        _ => {},
    }
}

/// An answer moves only the resource that its step is about.
#[verifier::rlimit(40)]
pub proof fn law_answers_leave_other_resources(
    gpu: GpuView,
    stage: Stage,
    data: BulkView,
    reply: ReplyView,
    other: u32,
)
    requires
        step_about(stage) != Some(other),
        !(stage is Flush),
    ensures
        ({
            let after = gpu.resume(stage, data, reply).0;
            &&& after.resources.contains_key(other) == gpu.resources.contains_key(other)
            &&& after.resources[other] == gpu.resources[other]
            &&& after.sw2d.contains_key(other) == gpu.sw2d.contains_key(other)
            &&& gpu.sw2d.contains_key(other) ==> after.sw2d[other] == gpu.sw2d[other]
            &&& after.displays == gpu.displays
            &&& after.renderer == gpu.renderer
        }),
{
}

/// A blob on a scanout takes the size and the format of the command, and is shown there; the other
/// scanouts keep what they show.
pub proof fn law_blob_takes_the_size_of_its_scanout(
    gpu: GpuView,
    scanout_id: u32,
    resource_id: u32,
    width: u32,
    height: u32,
    format: u32,
    other: u32,
)
    requires
        scanout_id < 16,
        other < 16,
        other != scanout_id,
        resource_id != 0,
        gpu.resources.contains_key(resource_id),
    ensures
        ({
            let (after, _) = gpu.cmd_scanout(
                Binding { scanout_id, resource_id, width, height, format: Some(format) },
            );
            let r = after.resources[resource_id];
            &&& r.width == width && r.height == height
            &&& r.format == match ResourceFormat::of_code(format) {
                Some(f) => Some(f),
                None => Some(ResourceFormat::BGRA),
            }
            &&& r.scanouts.has(scanout_id)
            &&& r.scanouts.has(other) == gpu.resources[resource_id].scanouts.has(other)
            &&& after.scanouts == gpu.scanouts
        }),
{
    let was = gpu.resources[resource_id].scanouts;
    let free = gpu.release_scanout(scanout_id).resources[resource_id].scanouts;
    scanout::lemma_bits(was, scanout_id, other);
    scanout::lemma_bits(free, scanout_id, other);
    scanout::lemma_bits(free, scanout_id, scanout_id);
}

/// A session is quiet when no descriptor waits for a fence, no frame is parked or awaited, no
/// guest's fence is held, and no retired present is still to be looked at.
pub proof fn law_when_a_session_is_quiet(gpu: GpuView, fences: FenceState, retired: bool)
    ensures
        worker::quiet(gpu, fences, retired) <==> fences.pending().len() == 0 && (gpu.present matches Some(
            p,
        ) ==> !retired && p.parked.is_empty() && p.flush_cookies.len() == 0 && p.holds.len() == 0
            && p.awaiting.len() == 0),
{
}

/// A parked session ends with an activation that is no thaw and with the worker; a thaw, a
/// deactivation and a snapshot leave it.
pub proof fn law_what_ends_a_parked_session(gpu: GpuView)
    ensures
        worker::session_begun(gpu, true, Some(WorkerCmd::Activate { thaw: true })) == gpu,
        worker::session_begun(gpu, true, Some(WorkerCmd::Snapshot)) == gpu,
        worker::session_begun(gpu, true, Some(WorkerCmd::Deactivate)) == gpu,
        worker::session_begun(gpu, true, Some(WorkerCmd::Activate { thaw: false }))
            == gpu.reset_session(),
        worker::session_begun(gpu, true, None) == gpu.reset_session(),
        worker::session_begun(gpu, false, Some(WorkerCmd::Activate { thaw: false })) == gpu,
{
}

/// Only a device reset parks a session, and only a quiet one.
pub proof fn law_only_quiet_sessions_are_parked(
    gpu: GpuView,
    fences: FenceState,
    exit: InnerExit,
    retired: bool,
)
    ensures
        ({
            let (after, parked) = worker::session_ended(gpu, fences, exit, retired);
            &&& parked ==> exit == InnerExit::Deactivate && fences.pending().len() == 0 && after
                == gpu
            &&& !parked ==> after == gpu.reset_session()
            &&& exit == InnerExit::Deactivate && worker::quiet(gpu, fences, retired) ==> parked
        }),
{
}

/// The first activation starts the worker with the region for blobs; a reset only deactivates.
pub proof fn law_first_activation_starts_the_worker(d: DeviceView)
    requires
        !d.worker_started,
    ensures
        d.activated().1 == d.shm_region,
        d.activated().0.worker_started,
        d.activated().0.activated().1 is None,
        !d.reset().activated,
        d.reset().worker_started == d.worker_started,
        d.reset().shm_region == d.shm_region,
        d.reset().acked_features == d.acked_features,
{
}

} // verus!
