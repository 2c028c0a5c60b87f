//! What each command asks for and what it leaves behind, from its first step to its answer.
use crate::gpu::command::GpuCommand;
use crate::gpu::journal::JournalStep;
use crate::gpu::payload;
use crate::gpu::present::Rect;
use crate::gpu::protocol::{DisplayError, GpuResponseView, RendererError, ResourceFormat};
use crate::gpu::step::{BulkView, ReplyView, Request, Stage, StepView};
use crate::gpu::virtio_gpu::{
    GpuView, ResourceCreate3D, ResourceCreateBlob, ResourceQuery, Transfer3D,
};
use crate::gpu_snapshot::{CursorSnapshotView, GpuJournalEntryView, GpuJournalOpView};
use vstd::prelude::*;

verus! {

impl GpuView {
    /// The device and the command after its first step and these replies.
    pub open spec fn ran(
        self,
        ctx_id: u32,
        cmd: GpuCommand,
        payload: Seq<u8>,
        replies: Seq<ReplyView>,
    ) -> (Self, StepView) {
        let (begun, step) = self.begin(ctx_id, cmd, payload, false);
        begun.carried_on(step, replies)
    }
}

/// The command asks exactly this, with this bulk data.
pub open spec fn asks(step: StepView, request: Request, data: BulkView) -> bool {
    step matches StepView::Ask { request: r, data: d, .. } && r == request && d == data
}

/// The command is answered that it was carried out, with nothing to say.
pub open spec fn is_ok(step: StepView) -> bool {
    step == StepView::Done(Ok(GpuResponseView::OkNoData))
}

/// The command is answered that the renderer refused it.
pub open spec fn refused_with(step: StepView, e: RendererError) -> bool {
    step == StepView::Done(Err(GpuResponseView::ErrRutabaga(e)))
}

/// The entries with one more behind them, that has the next number.
pub open spec fn one_more(gpu: GpuView, op: GpuJournalOpView, vkr_seq: u64) -> Seq<
    GpuJournalEntryView,
> {
    gpu.journal.entries.push(
        GpuJournalEntryView { seq: gpu.journal.seq_next as u64, vkr_seq, op },
    )
}

proof fn lemma_no_reply(gpu: GpuView, step: StepView)
    ensures
        gpu.carried_on(step, Seq::empty()) == (gpu, step),
{
}

proof fn lemma_reply(gpu: GpuView, step: StepView, replies: Seq<ReplyView>, reply: ReplyView)
    ensures
        gpu.carried_on(step, replies.push(reply)) == match gpu.carried_on(step, replies).1 {
            StepView::Ask { stage, data, .. } => gpu.carried_on(step, replies).0.resume(
                stage,
                data,
                reply,
            ),
            StepView::Done(_) => gpu.carried_on(step, replies),
        },
{
    assert(replies.push(reply).drop_last() =~= replies);
    assert(replies.push(reply).last() == reply);
}

proof fn lemma_one(gpu: GpuView, step: StepView, a: ReplyView)
    ensures
        gpu.carried_on(step, seq![a]) == match step {
            StepView::Ask { stage, data, .. } => gpu.resume(stage, data, a),
            StepView::Done(_) => (gpu, step),
        },
{
    lemma_reply(gpu, step, Seq::empty(), a);
    assert(Seq::empty().push(a) =~= seq![a]);
}

proof fn lemma_two(gpu: GpuView, step: StepView, a: ReplyView, b: ReplyView)
    ensures
        gpu.carried_on(step, seq![a, b]) == match gpu.carried_on(step, seq![a]).1 {
            StepView::Ask { stage, data, .. } => gpu.carried_on(step, seq![a]).0.resume(
                stage,
                data,
                b,
            ),
            StepView::Done(_) => gpu.carried_on(step, seq![a]),
        },
{
    lemma_one(gpu, step, a);
    lemma_reply(gpu, step, seq![a], b);
    assert(seq![a].push(b) =~= seq![a, b]);
}

proof fn lemma_three(gpu: GpuView, step: StepView, a: ReplyView, b: ReplyView, c: ReplyView)
    ensures
        gpu.carried_on(step, seq![a, b, c]) == match gpu.carried_on(step, seq![a, b]).1 {
            StepView::Ask { stage, data, .. } => gpu.carried_on(step, seq![a, b]).0.resume(
                stage,
                data,
                c,
            ),
            StepView::Done(_) => gpu.carried_on(step, seq![a, b]),
        },
{
    lemma_two(gpu, step, a, b);
    lemma_reply(gpu, step, seq![a, b], c);
    assert(seq![a, b].push(c) =~= seq![a, b, c]);
}

proof fn lemma_four(
    gpu: GpuView,
    step: StepView,
    a: ReplyView,
    b: ReplyView,
    c: ReplyView,
    d: ReplyView,
)
    ensures
        gpu.carried_on(step, seq![a, b, c, d]) == match gpu.carried_on(step, seq![a, b, c]).1 {
            StepView::Ask { stage, data, .. } => gpu.carried_on(step, seq![a, b, c]).0.resume(
                stage,
                data,
                d,
            ),
            StepView::Done(_) => gpu.carried_on(step, seq![a, b, c]),
        },
{
    lemma_three(gpu, step, a, b, c);
    lemma_reply(gpu, step, seq![a, b, c], d);
    assert(seq![a, b, c].push(d) =~= seq![a, b, c, d]);
}

/// A transfer to the host writes and one from the host reads, once, with the context, the resource
/// and the box of the command; the renderer's verdict is the answer, and nothing else changes. A
/// rectangle is a box of depth one, outside of any context.
pub proof fn law_transfers_go_the_right_way(
    gpu: GpuView,
    ctx_id: u32,
    resource_id: u32,
    transfer: Transfer3D,
    rect: Rect,
    verdict: Result<(), RendererError>,
)
    requires
        gpu.renderer,
        !gpu.sw2d.contains_key(resource_id),
    ensures
        ({
            let up = GpuCommand::TransferToHost3d { resource_id, transfer };
            let down = GpuCommand::TransferFromHost3d { resource_id, transfer };
            let flat = GpuCommand::TransferToHost2d { resource_id, rect };
            let as_box = Transfer3D {
                x: rect.x,
                y: rect.y,
                z: 0,
                w: rect.width,
                h: rect.height,
                d: 1,
                level: 0,
                stride: 0,
                layer_stride: 0,
                offset: 0,
            };
            let reply = seq![ReplyView::Renderer(verdict)];
            &&& asks(
                gpu.ran(ctx_id, up, Seq::empty(), Seq::empty()).1,
                Request::TransferWrite { ctx_id, resource_id, transfer },
                BulkView::none(),
            )
            &&& asks(
                gpu.ran(ctx_id, down, Seq::empty(), Seq::empty()).1,
                Request::TransferRead { ctx_id, resource_id, transfer },
                BulkView::none(),
            )
            &&& asks(
                gpu.ran(ctx_id, flat, Seq::empty(), Seq::empty()).1,
                Request::TransferWrite { ctx_id: 0, resource_id, transfer: as_box },
                BulkView::none(),
            )
            &&& gpu.ran(ctx_id, up, Seq::empty(), reply).0 == gpu
            &&& gpu.ran(ctx_id, down, Seq::empty(), reply).0 == gpu
            &&& gpu.ran(ctx_id, flat, Seq::empty(), reply).0 == gpu
            &&& match verdict {
                Ok(_) => is_ok(gpu.ran(ctx_id, up, Seq::empty(), reply).1) && is_ok(
                    gpu.ran(ctx_id, down, Seq::empty(), reply).1,
                ) && is_ok(gpu.ran(ctx_id, flat, Seq::empty(), reply).1),
                Err(e) => refused_with(gpu.ran(ctx_id, up, Seq::empty(), reply).1, e)
                    && refused_with(gpu.ran(ctx_id, down, Seq::empty(), reply).1, e)
                    && refused_with(gpu.ran(ctx_id, flat, Seq::empty(), reply).1, e),
            }
        }),
{
    let up = gpu.begin(
        ctx_id,
        GpuCommand::TransferToHost3d { resource_id, transfer },
        Seq::empty(),
        false,
    ).1;
    let down = gpu.begin(
        ctx_id,
        GpuCommand::TransferFromHost3d { resource_id, transfer },
        Seq::empty(),
        false,
    ).1;
    let flat = gpu.begin(
        ctx_id,
        GpuCommand::TransferToHost2d { resource_id, rect },
        Seq::empty(),
        false,
    ).1;
    let reply = ReplyView::Renderer(verdict);
    lemma_one(gpu, up, reply);
    lemma_one(gpu, down, reply);
    lemma_one(gpu, flat, reply);
    lemma_no_reply(gpu, up);
    lemma_no_reply(gpu, down);
    lemma_no_reply(gpu, flat);
}

/// The pixels of a software-2D resource are the guest's already: a transfer from the host asks for
/// nothing and changes nothing.
pub proof fn law_software_pictures_are_not_read_back(
    gpu: GpuView,
    ctx_id: u32,
    resource_id: u32,
    transfer: Transfer3D,
)
    requires
        gpu.sw2d.contains_key(resource_id),
    ensures
        gpu.ran(
            ctx_id,
            GpuCommand::TransferFromHost3d { resource_id, transfer },
            Seq::empty(),
            Seq::empty(),
        ) == (gpu, StepView::Done(Ok(GpuResponseView::OkNoData))),
{
}

/// A context is made, ended, and given or denied a resource as the command says, in the command's
/// context; what the renderer did is journaled as that, and what it refused changes nothing.
pub proof fn law_context_commands(
    gpu: GpuView,
    ctx_id: u32,
    context_init: u32,
    debug_name: [u8; 64],
    resource_id: u32,
    e: RendererError,
)
    requires
        gpu.renderer,
    ensures
        ({
            let create = GpuCommand::CtxCreate { context_init, debug_name };
            let destroy = GpuCommand::CtxDestroy;
            let attach = GpuCommand::CtxAttachResource { resource_id };
            let detach = GpuCommand::CtxDetachResource { resource_id };
            let none = Seq::empty();
            let ok = seq![ReplyView::Renderer(Ok(()))];
            let no = seq![ReplyView::Renderer(Err(e))];
            let name = if vstd::utf8::valid_utf8(debug_name@) {
                Some(vstd::utf8::decode_utf8(debug_name@))
            } else {
                None
            };
            &&& asks(
                gpu.ran(ctx_id, create, none, Seq::empty()).1,
                Request::CreateContext { ctx_id, context_init },
                BulkView { name, ..BulkView::none() },
            )
            &&& asks(
                gpu.ran(ctx_id, destroy, none, Seq::empty()).1,
                Request::DestroyContext { ctx_id },
                BulkView::none(),
            )
            &&& asks(
                gpu.ran(ctx_id, attach, none, Seq::empty()).1,
                Request::AttachResource { ctx_id, resource_id },
                BulkView::none(),
            )
            &&& asks(
                gpu.ran(ctx_id, detach, none, Seq::empty()).1,
                Request::DetachResource { ctx_id, resource_id },
                BulkView::none(),
            )
            &&& is_ok(gpu.ran(ctx_id, create, none, ok).1)
            &&& is_ok(gpu.ran(ctx_id, destroy, none, ok).1)
            &&& is_ok(gpu.ran(ctx_id, attach, none, ok).1)
            &&& is_ok(gpu.ran(ctx_id, detach, none, ok).1)
            &&& gpu.ran(ctx_id, create, none, ok).0.journal.entries == one_more(
                gpu,
                GpuJournalOpView::CtxCreate { ctx_id, context_init, name },
                0,
            )
            &&& gpu.ran(ctx_id, create, none, ok).0.vrend_ctx_seen == (gpu.vrend_ctx_seen
                || context_init & 0xff != 4)
            &&& gpu.ran(ctx_id, destroy, none, ok).0.journal == gpu.journal.apply(
                JournalStep::CtxDestroy { ctx_id },
            )
            &&& gpu.ran(ctx_id, attach, none, ok).0.journal == gpu.journal.apply(
                JournalStep::CtxAttach { ctx_id, resource_id },
            )
            &&& gpu.ran(ctx_id, detach, none, ok).0.journal == gpu.journal.apply(
                JournalStep::CtxDetach { ctx_id, resource_id },
            )
            &&& gpu.ran(ctx_id, create, none, no).0 == gpu
            &&& gpu.ran(ctx_id, destroy, none, no).0 == gpu
            &&& gpu.ran(ctx_id, attach, none, no).0 == gpu
            &&& gpu.ran(ctx_id, detach, none, no).0 == gpu
            &&& refused_with(gpu.ran(ctx_id, create, none, no).1, e)
            &&& refused_with(gpu.ran(ctx_id, destroy, none, no).1, e)
            &&& refused_with(gpu.ran(ctx_id, attach, none, no).1, e)
            &&& refused_with(gpu.ran(ctx_id, detach, none, no).1, e)
        }),
{
    let none = Seq::empty();
    let ok = ReplyView::Renderer(Ok(()));
    let no = ReplyView::Renderer(Err(e));
    let a = gpu.begin(ctx_id, GpuCommand::CtxCreate { context_init, debug_name }, none, false).1;
    let b = gpu.begin(ctx_id, GpuCommand::CtxDestroy, none, false).1;
    let c = gpu.begin(ctx_id, GpuCommand::CtxAttachResource { resource_id }, none, false).1;
    let d = gpu.begin(ctx_id, GpuCommand::CtxDetachResource { resource_id }, none, false).1;
    lemma_no_reply(gpu, a);
    lemma_no_reply(gpu, b);
    lemma_no_reply(gpu, c);
    lemma_no_reply(gpu, d);
    lemma_one(gpu, a, ok);
    lemma_one(gpu, b, ok);
    lemma_one(gpu, c, ok);
    lemma_one(gpu, d, ok);
    lemma_one(gpu, a, no);
    lemma_one(gpu, b, no);
    lemma_one(gpu, c, no);
    lemma_one(gpu, d, no);
}

/// A 3D resource is made by the renderer as the guest described it, remembered with its size and
/// format, and journaled field by field; its planes are the answer.
pub proof fn law_3d_resources_are_made(
    gpu: GpuView,
    ctx_id: u32,
    resource_id: u32,
    create: ResourceCreate3D,
    q: Option<ResourceQuery>,
    e: RendererError,
)
    requires
        gpu.renderer,
    ensures
        ({
            let cmd = GpuCommand::ResourceCreate3d { resource_id, create };
            let made = ReplyView::Renderer(Ok(()));
            let (after, step) = gpu.ran(
                ctx_id,
                cmd,
                Seq::empty(),
                seq![made, ReplyView::Query(q)],
            );
            let r = after.resources[resource_id];
            &&& asks(
                gpu.ran(ctx_id, cmd, Seq::empty(), Seq::empty()).1,
                Request::CreateResource3d { resource_id, create },
                BulkView::none(),
            )
            &&& asks(
                gpu.ran(ctx_id, cmd, Seq::empty(), seq![made]).1,
                Request::Query { resource_id },
                BulkView::none(),
            )
            &&& step == StepView::Done(Ok(GpuView::plane_info(q)))
            &&& after.resources.dom() == gpu.resources.dom().insert(resource_id)
            &&& r.id == resource_id && r.width == create.width && r.height == create.height
                && r.size == 0 && r.scanouts.0 == 0 && r.shmem_offset is None && r.ctx_id == 0
            &&& r.format == ResourceFormat::of_code(create.format)
            &&& after.journal.entries == one_more(
                gpu,
                GpuJournalOpView::ResourceCreate3d {
                    resource_id,
                    target: create.target,
                    format: create.format,
                    bind: create.bind,
                    width: create.width,
                    height: create.height,
                    depth: create.depth,
                    array_size: create.array_size,
                    last_level: create.last_level,
                    nr_samples: create.nr_samples,
                    flags: create.flags,
                },
                0,
            )
            &&& gpu.ran(ctx_id, cmd, Seq::empty(), seq![ReplyView::Renderer(Err(e))]).0 == gpu
        }),
{
    let step = gpu.begin(
        ctx_id,
        GpuCommand::ResourceCreate3d { resource_id, create },
        Seq::empty(),
        false,
    ).1;
    let made = ReplyView::Renderer(Ok(()));
    lemma_no_reply(gpu, step);
    lemma_two(gpu, step, made, ReplyView::Query(q));
    lemma_one(gpu, step, made);
    lemma_one(gpu, step, ReplyView::Renderer(Err(e)));
    let after = gpu.ran(
        ctx_id,
        GpuCommand::ResourceCreate3d { resource_id, create },
        Seq::empty(),
        seq![made, ReplyView::Query(q)],
    ).0;
    assert(after.resources.dom() =~= gpu.resources.dom().insert(resource_id));
}

/// The planes that the renderer knows of a resource, stride and offset of each, and how they are
/// laid out; a resource whose planes it does not know is answered with nothing.
pub proof fn law_planes_are_told(q: ResourceQuery, i: int)
    requires
        0 <= i < 4,
    ensures
        GpuView::plane_info(Some(q)) is OkResourcePlaneInfo,
        GpuView::plane_info(Some(q))->format_modifier == q.modifier,
        GpuView::plane_info(Some(q))->plane_info.len() == 4,
        GpuView::plane_info(Some(q))->plane_info[i].stride == q.strides@[i],
        GpuView::plane_info(Some(q))->plane_info[i].offset == q.offsets@[i],
        GpuView::plane_info(None) == GpuResponseView::OkNoData,
{
}

/// A blob of the renderer's own memory is made at once; one of guest memory only where that memory
/// is there, and then on it. It is remembered with its size and the context that made it, and
/// journaled behind what that context's wire journal had recorded by then.
pub proof fn law_blobs_are_made(
    gpu: GpuView,
    ctx_id: u32,
    resource_id: u32,
    create: ResourceCreateBlob,
    nr_entries: u32,
    bytes: Seq<u8>,
    ranges: Seq<(u64, usize)>,
    seq: Option<u64>,
    q: Option<ResourceQuery>,
)
    requires
        gpu.renderer,
        payload::mem_entries(bytes, nr_entries) == Some(ranges),
    ensures
        ({
            let cmd = GpuCommand::ResourceCreateBlob { resource_id, create, nr_entries };
            let made = ReplyView::Renderer(Ok(()));
            let there = ReplyView::Done(true);
            let number = ReplyView::Number(seq);
            let planes = ReplyView::Query(q);
            let own = create.blob_mem == 2;
            let data = BulkView { ranges, ..BulkView::none() };
            let (after, step) = if own {
                gpu.ran(ctx_id, cmd, bytes, seq![made, number, planes])
            } else {
                gpu.ran(ctx_id, cmd, bytes, seq![there, made, number, planes])
            };
            let r = after.resources[resource_id];
            &&& own ==> asks(
                gpu.ran(ctx_id, cmd, bytes, Seq::empty()).1,
                Request::CreateBlob { ctx_id, resource_id, create, backed: false },
                data,
            )
            &&& !own ==> asks(gpu.ran(ctx_id, cmd, bytes, Seq::empty()).1, Request::CheckGuest, data)
            &&& !own ==> asks(
                gpu.ran(ctx_id, cmd, bytes, seq![there]).1,
                Request::CreateBlob { ctx_id, resource_id, create, backed: true },
                data,
            )
            &&& !own ==> gpu.ran(ctx_id, cmd, bytes, seq![ReplyView::Done(false)]) == (
                gpu,
                StepView::Done(Err(GpuResponseView::ErrUnspec)),
            )
            &&& step == StepView::Done(Ok(GpuView::plane_info(q)))
            &&& r.id == resource_id && r.size == create.size && r.ctx_id == ctx_id && r.width == 0
                && r.height == 0 && r.format is None && r.shmem_offset is None && r.scanouts.0 == 0
            &&& after.journal.entries == one_more(
                gpu,
                GpuJournalOpView::CreateBlob {
                    ctx_id,
                    resource_id,
                    blob_mem: create.blob_mem,
                    blob_flags: create.blob_flags,
                    blob_id: create.blob_id,
                    size: create.size,
                    backing: ranges,
                },
                match seq {
                    Some(n) => n,
                    None => 0,
                },
            )
        }),
{
    let cmd = GpuCommand::ResourceCreateBlob { resource_id, create, nr_entries };
    let step = gpu.begin(ctx_id, cmd, bytes, false).1;
    let made = ReplyView::Renderer(Ok(()));
    let there = ReplyView::Done(true);
    let number = ReplyView::Number(seq);
    let planes = ReplyView::Query(q);
    lemma_no_reply(gpu, step);
    if create.blob_mem == 2 {
        lemma_three(gpu, step, made, number, planes);
        lemma_two(gpu, step, made, number);
        lemma_one(gpu, step, made);
    } else {
        lemma_four(gpu, step, there, made, number, planes);
        lemma_three(gpu, step, there, made, number);
        lemma_two(gpu, step, there, made);
        lemma_one(gpu, step, there);
        lemma_one(gpu, step, ReplyView::Done(false));
    }
}

/// A blob is mapped at its offset in the shared region, all of it, where it lies inside: the guest
/// is told how it is cached, and the offset is remembered and journaled. Where it does not lie
/// inside, nothing is mapped.
pub proof fn law_blobs_are_mapped_inside(
    gpu: GpuView,
    ctx_id: u32,
    resource_id: u32,
    offset: u64,
    info: u64,
    host_addr: u64,
)
    requires
        gpu.renderer,
        gpu.resources.contains_key(resource_id),
        info <= u32::MAX,
    ensures
        ({
            let cmd = GpuCommand::ResourceMapBlob { resource_id, offset };
            let size = gpu.resources[resource_id].size;
            let inside = offset + size <= gpu.shm.size && gpu.shm.guest_addr + offset <= u64::MAX;
            let a = ReplyView::Number(Some(info));
            let b = ReplyView::Number(Some(host_addr));
            let two = gpu.ran(ctx_id, cmd, Seq::empty(), seq![a, b]);
            let (after, step) = gpu.ran(
                ctx_id,
                cmd,
                Seq::empty(),
                seq![a, b, ReplyView::Done(true)],
            );
            &&& asks(
                gpu.ran(ctx_id, cmd, Seq::empty(), Seq::empty()).1,
                Request::MapInfo { resource_id },
                BulkView::none(),
            )
            &&& asks(
                gpu.ran(ctx_id, cmd, Seq::empty(), seq![a]).1,
                Request::MapPtr { resource_id },
                BulkView::none(),
            )
            &&& two.0 == gpu
            &&& !inside ==> two.1 == StepView::Done(Err(GpuResponseView::ErrUnspec))
            &&& inside ==> asks(
                two.1,
                Request::AddMapping {
                    host_addr,
                    guest_addr: (gpu.shm.guest_addr + offset) as u64,
                    size,
                },
                BulkView::none(),
            )
            &&& inside ==> {
                &&& step == StepView::Done(
                    Ok(GpuResponseView::OkMapInfo { map_info: info as u32 & 0x0f }),
                )
                &&& after.resources[resource_id].shmem_offset == Some(offset)
                &&& after.resources[resource_id].size == size
                &&& after.resources.dom() == gpu.resources.dom()
                &&& after.journal == gpu.journal.apply(
                    JournalStep::MapBlob { resource_id, offset },
                )
                &&& gpu.ran(ctx_id, cmd, Seq::empty(), seq![a, b, ReplyView::Done(false)]) == (
                    gpu,
                    StepView::Done(Err(GpuResponseView::ErrUnspec)),
                )
            }
        }),
{
    let cmd = GpuCommand::ResourceMapBlob { resource_id, offset };
    let step = gpu.begin(ctx_id, cmd, Seq::empty(), false).1;
    let a = ReplyView::Number(Some(info));
    let b = ReplyView::Number(Some(host_addr));
    lemma_no_reply(gpu, step);
    lemma_one(gpu, step, a);
    lemma_two(gpu, step, a, b);
    lemma_three(gpu, step, a, b, ReplyView::Done(true));
    lemma_three(gpu, step, a, b, ReplyView::Done(false));
    let after = gpu.ran(ctx_id, cmd, Seq::empty(), seq![a, b, ReplyView::Done(true)]).0;
    assert(after.resources.dom() =~= gpu.resources.dom());
}

/// A mapping is taken away from where it was made, all of it, and forgotten.
pub proof fn law_blobs_are_unmapped_where_they_were(gpu: GpuView, ctx_id: u32, resource_id: u32, o: u64)
    requires
        gpu.wf(),
        gpu.resources.contains_key(resource_id),
        gpu.resources[resource_id].shmem_offset == Some(o),
    ensures
        ({
            let cmd = GpuCommand::ResourceUnmapBlob { resource_id };
            let (after, step) = gpu.ran(
                ctx_id,
                cmd,
                Seq::empty(),
                seq![ReplyView::Done(true)],
            );
            &&& asks(
                gpu.ran(ctx_id, cmd, Seq::empty(), Seq::empty()).1,
                Request::RemoveMapping {
                    guest_addr: (gpu.shm.guest_addr + o) as u64,
                    size: gpu.resources[resource_id].size,
                },
                BulkView::none(),
            )
            &&& is_ok(step)
            &&& after.resources[resource_id].shmem_offset is None
            &&& after.journal == gpu.journal.apply(JournalStep::UnmapBlob { resource_id })
            &&& gpu.ran(ctx_id, cmd, Seq::empty(), seq![ReplyView::Done(false)]) == (
                gpu,
                StepView::Done(Err(GpuResponseView::ErrUnspec)),
            )
        }),
{
    let step = gpu.begin(
        ctx_id,
        GpuCommand::ResourceUnmapBlob { resource_id },
        Seq::empty(),
        false,
    ).1;
    lemma_no_reply(gpu, step);
    lemma_one(gpu, step, ReplyView::Done(true));
    lemma_one(gpu, step, ReplyView::Done(false));
}

/// A software-2D picture starts black, four bytes for each pixel, with no guest memory behind it.
pub proof fn law_pictures_start_black(
    gpu: GpuView,
    ctx_id: u32,
    resource_id: u32,
    format: u32,
    width: u32,
    height: u32,
    i: int,
)
    requires
        ResourceFormat::of_code(format) is Some,
        width * height * 4 <= usize::MAX,
        0 <= i < width * height * 4,
    ensures
        ({
            let cmd = GpuCommand::ResourceCreate2d { resource_id, format, width, height };
            let (after, step) = gpu.ran(ctx_id, cmd, Seq::empty(), Seq::empty());
            let r = after.resources[resource_id];
            &&& is_ok(step)
            &&& after.sw2d.contains_key(resource_id)
            &&& after.sw2d[resource_id].host.len() == width * height * 4
            &&& after.sw2d[resource_id].host[i] == 0
            &&& after.sw2d[resource_id].backing.len() == 0
            &&& after.resources.contains_key(resource_id)
            &&& r.id == resource_id && r.width == width && r.height == height && r.scanouts.0 == 0
                && r.format == ResourceFormat::of_code(format)
            &&& after.journal.entries == one_more(
                gpu,
                GpuJournalOpView::ResourceCreate2d { resource_id, format, width, height },
                0,
            )
        }),
{
    let cmd = GpuCommand::ResourceCreate2d { resource_id, format, width, height };
    let (after, step) = gpu.begin(ctx_id, cmd, Seq::empty(), false);
    lemma_no_reply(after, step);
}

/// Guest memory is put behind a resource only where all of it is there: a software-2D picture
/// keeps the ranges itself, any other resource's are the renderer's. What was put there is
/// journaled.
pub proof fn law_backing_is_checked(
    gpu: GpuView,
    ctx_id: u32,
    resource_id: u32,
    nr_entries: u32,
    bytes: Seq<u8>,
    ranges: Seq<(u64, usize)>,
    e: RendererError,
)
    requires
        gpu.renderer,
        bytes.len() > 0,
        payload::mem_entries(bytes, nr_entries) == Some(ranges),
    ensures
        ({
            let cmd = GpuCommand::ResourceAttachBacking { resource_id, nr_entries };
            let data = BulkView { ranges, ..BulkView::none() };
            let there = ReplyView::Done(true);
            let sw = gpu.sw2d.contains_key(resource_id);
            let (after, step) = if sw {
                gpu.ran(ctx_id, cmd, bytes, seq![there])
            } else {
                gpu.ran(ctx_id, cmd, bytes, seq![there, ReplyView::Renderer(Ok(()))])
            };
            &&& asks(gpu.ran(ctx_id, cmd, bytes, Seq::empty()).1, Request::CheckGuest, data)
            &&& gpu.ran(ctx_id, cmd, bytes, seq![ReplyView::Done(false)]) == (
                gpu,
                StepView::Done(Err(GpuResponseView::ErrUnspec)),
            )
            &&& !sw ==> asks(
                gpu.ran(ctx_id, cmd, bytes, seq![there]).1,
                Request::AttachBacking { resource_id },
                data,
            )
            &&& is_ok(step)
            &&& after.journal == gpu.journal.apply(
                JournalStep::AttachBacking { resource_id, backing: ranges },
            )
            &&& sw ==> after.sw2d[resource_id].backing == ranges && after.sw2d[resource_id].host
                == gpu.sw2d[resource_id].host
            &&& !sw ==> after.sw2d == gpu.sw2d
            &&& !sw ==> gpu.ran(
                ctx_id,
                cmd,
                bytes,
                seq![there, ReplyView::Renderer(Err(e))],
            ).0 == gpu
        }),
{
    let cmd = GpuCommand::ResourceAttachBacking { resource_id, nr_entries };
    let step = gpu.begin(ctx_id, cmd, bytes, false).1;
    let there = ReplyView::Done(true);
    lemma_no_reply(gpu, step);
    lemma_one(gpu, step, there);
    lemma_one(gpu, step, ReplyView::Done(false));
    lemma_two(gpu, step, there, ReplyView::Renderer(Ok(())));
    lemma_two(gpu, step, there, ReplyView::Renderer(Err(e)));
}

/// Guest memory is taken away from behind a resource: a software-2D picture forgets its ranges and
/// keeps its pixels, any other resource's are taken away by the renderer.
pub proof fn law_backing_is_taken_away(gpu: GpuView, ctx_id: u32, resource_id: u32)
    requires
        gpu.renderer,
    ensures
        ({
            let cmd = GpuCommand::ResourceDetachBacking { resource_id };
            let sw = gpu.sw2d.contains_key(resource_id);
            let (after, step) = if sw {
                gpu.ran(ctx_id, cmd, Seq::empty(), Seq::empty())
            } else {
                gpu.ran(ctx_id, cmd, Seq::empty(), seq![ReplyView::Renderer(Ok(()))])
            };
            &&& !sw ==> asks(
                gpu.ran(ctx_id, cmd, Seq::empty(), Seq::empty()).1,
                Request::DetachBacking { resource_id },
                BulkView::none(),
            )
            &&& is_ok(step)
            &&& after.journal == gpu.journal.apply(JournalStep::DetachBacking { resource_id })
            &&& sw ==> after.sw2d[resource_id].backing.len() == 0 && after.sw2d[resource_id].host
                == gpu.sw2d[resource_id].host
        }),
{
    let cmd = GpuCommand::ResourceDetachBacking { resource_id };
    let (after, step) = gpu.begin(ctx_id, cmd, Seq::empty(), false);
    lemma_no_reply(after, step);
    lemma_one(after, step, ReplyView::Renderer(Ok(())));
}

/// A resource that is not shown is let go: by the renderer if it is its, unmapped first where the
/// renderer holds a mapping. Nothing of it is left in the device or the journal, and a blob that
/// the wire journal keeps something for lets go of that too. One that is shown is refused.
pub proof fn law_resources_are_let_go(gpu: GpuView, ctx_id: u32, resource_id: u32)
    requires
        gpu.renderer,
        gpu.resources.contains_key(resource_id),
    ensures
        ({
            let cmd = GpuCommand::ResourceUnref { resource_id };
            let r = gpu.resources[resource_id];
            let sw = gpu.sw2d.contains_key(resource_id);
            let first = gpu.ran(ctx_id, cmd, Seq::empty(), Seq::empty());
            let ok = ReplyView::Renderer(Ok(()));
            let gone = if sw {
                first
            } else if r.rutabaga_external_mapping {
                gpu.ran(ctx_id, cmd, Seq::empty(), seq![ok, ok])
            } else {
                gpu.ran(ctx_id, cmd, Seq::empty(), seq![ok])
            };
            &&& first.0.resources == gpu.resources.remove(resource_id)
            &&& r.scanouts.0 != 0 ==> first.1 == StepView::Done(Err(GpuResponseView::ErrUnspec))
            &&& r.scanouts.0 == 0 && !sw && r.rutabaga_external_mapping ==> asks(
                first.1,
                Request::Unmap { resource_id },
                BulkView::none(),
            ) && asks(
                gpu.ran(ctx_id, cmd, Seq::empty(), seq![ok]).1,
                Request::Unref { resource_id },
                BulkView::none(),
            )
            &&& r.scanouts.0 == 0 && !sw && !r.rutabaga_external_mapping ==> asks(
                first.1,
                Request::Unref { resource_id },
                BulkView::none(),
            )
            &&& r.scanouts.0 == 0 ==> {
                &&& gone.0.resources == gpu.resources.remove(resource_id)
                &&& !gone.0.sw2d.contains_key(resource_id)
                &&& gone.0.journal == gpu.journal.apply(JournalStep::ResourceUnref { resource_id })
                &&& match crate::gpu::journal::pinned_blob(gpu.journal.entries, resource_id) {
                    Some((c, blob_id)) => asks(
                        gone.1,
                        Request::JournalUnpin { ctx_id: c, blob_id },
                        BulkView::none(),
                    ),
                    None => is_ok(gone.1),
                }
            }
        }),
{
    let cmd = GpuCommand::ResourceUnref { resource_id };
    let (after, step) = gpu.begin(ctx_id, cmd, Seq::empty(), false);
    let ok = ReplyView::Renderer(Ok(()));
    lemma_no_reply(after, step);
    lemma_one(after, step, ok);
    lemma_two(after, step, ok, ok);
}

/// A resource that there is not is neither let go, mapped, unmapped nor named.
pub proof fn law_missing_resources_are_refused(gpu: GpuView, ctx_id: u32, resource_id: u32, offset: u64)
    requires
        !gpu.resources.contains_key(resource_id),
    ensures
        ({
            let no = (gpu, StepView::Done(Err(GpuResponseView::ErrInvalidResourceId)));
            &&& gpu.begin(
                ctx_id,
                GpuCommand::ResourceUnref { resource_id },
                Seq::empty(),
                false,
            ) == no
            &&& gpu.begin(
                ctx_id,
                GpuCommand::ResourceMapBlob { resource_id, offset },
                Seq::empty(),
                false,
            ) == no
            &&& gpu.begin(
                ctx_id,
                GpuCommand::ResourceUnmapBlob { resource_id },
                Seq::empty(),
                false,
            ) == no
            &&& gpu.begin(
                ctx_id,
                GpuCommand::ResourceAssignUuid { resource_id },
                Seq::empty(),
                false,
            ) == no
        }),
{
}

/// A scanout is shown on its display with the size that the command asks for and the format of the
/// resource, or of the command where the resource is a blob. Once the display agrees, it is bound
/// to the resource with that size and with the surface that the renderer has for it, and the
/// binding is journaled.
pub proof fn law_scanouts_are_bound(
    gpu: GpuView,
    ctx_id: u32,
    scanout_id: u32,
    resource_id: u32,
    width: u32,
    height: u32,
    format: u32,
    blob: bool,
    surface: Option<u64>,
)
    requires
        gpu.wf(),
        gpu.renderer,
        scanout_id < 16,
        scanout_id < gpu.displays.len(),
        resource_id != 0,
        gpu.resources.contains_key(resource_id),
        !blob ==> gpu.resources[resource_id].format is Some,
        gpu.scanouts[scanout_id as int] matches Some(b) ==> gpu.resources.contains_key(
            b.resource_id,
        ),
        surface matches Some(n) ==> n <= u32::MAX,
    ensures
        ({
            let cmd = if blob {
                GpuCommand::SetScanoutBlob { scanout_id, resource_id, width, height, format }
            } else {
                GpuCommand::SetScanout { scanout_id, resource_id, width, height }
            };
            let f = if blob {
                match ResourceFormat::of_code(format) {
                    Some(f) => f,
                    None => ResourceFormat::BGRA,
                }
            } else {
                gpu.resources[resource_id].format.unwrap()
            };
            let agreed = ReplyView::Display(Ok(()));
            let (after, step) = gpu.ran(
                ctx_id,
                cmd,
                Seq::empty(),
                seq![agreed, ReplyView::Number(surface)],
            );
            &&& asks(
                gpu.ran(ctx_id, cmd, Seq::empty(), Seq::empty()).1,
                Request::ConfigureScanout {
                    scanout_id,
                    display_width: gpu.displays[scanout_id as int].width,
                    display_height: gpu.displays[scanout_id as int].height,
                    width,
                    height,
                    format: f,
                },
                BulkView::none(),
            )
            &&& asks(
                gpu.ran(ctx_id, cmd, Seq::empty(), seq![agreed]).1,
                Request::Surface { resource_id },
                BulkView::none(),
            )
            &&& is_ok(step)
            &&& after.scanouts[scanout_id as int] matches Some(b)
            &&& b.resource_id == resource_id && b.width == width && b.height == height
            &&& b.iosurface_id == match surface {
                Some(n) => if n == 0 {
                    None
                } else {
                    Some(n as u32)
                },
                None => None,
            }
            &&& after.journal == gpu.journal.apply(
                if blob {
                    JournalStep::SetScanoutBlob { scanout_id, resource_id, width, height, format }
                } else {
                    JournalStep::SetScanout { scanout_id, resource_id, width, height }
                },
            )
        }),
{
    let cmd = if blob {
        GpuCommand::SetScanoutBlob { scanout_id, resource_id, width, height, format }
    } else {
        GpuCommand::SetScanout { scanout_id, resource_id, width, height }
    };
    let (after, step) = gpu.begin(ctx_id, cmd, Seq::empty(), false);
    lemma_no_reply(after, step);
    lemma_one(after, step, ReplyView::Display(Ok(())));
    lemma_two(after, step, ReplyView::Display(Ok(())), ReplyView::Number(surface));
}

/// Resource 0 takes a scanout off its display: it shows nothing from then on, and its binding is
/// no longer journaled.
pub proof fn law_scanouts_are_taken_off(gpu: GpuView, ctx_id: u32, scanout_id: u32, e: DisplayError)
    requires
        gpu.wf(),
        scanout_id < 16,
        gpu.scanouts[scanout_id as int] matches Some(b) ==> gpu.resources.contains_key(
            b.resource_id,
        ),
    ensures
        ({
            let cmd = GpuCommand::SetScanout { scanout_id, resource_id: 0, width: 0, height: 0 };
            let (after, step) = gpu.ran(
                ctx_id,
                cmd,
                Seq::empty(),
                seq![ReplyView::Display(Ok(()))],
            );
            &&& asks(
                gpu.ran(ctx_id, cmd, Seq::empty(), Seq::empty()).1,
                Request::DisableScanout { scanout_id },
                BulkView::none(),
            )
            &&& is_ok(step)
            &&& after.scanouts[scanout_id as int] is None
            &&& after.journal == gpu.journal.apply(
                JournalStep::SetScanout { scanout_id, resource_id: 0, width: 0, height: 0 },
            )
            &&& gpu.ran(
                ctx_id,
                cmd,
                Seq::empty(),
                seq![ReplyView::Display(Err(e))],
            ).1 == StepView::Done(Err(GpuResponseView::ErrDisplay(e)))
        }),
{
    let cmd = GpuCommand::SetScanout { scanout_id, resource_id: 0, width: 0, height: 0 };
    let (after, step) = gpu.begin(ctx_id, cmd, Seq::empty(), false);
    lemma_no_reply(after, step);
    lemma_one(after, step, ReplyView::Display(Ok(())));
    lemma_one(after, step, ReplyView::Display(Err(e)));
}

/// The cursor is the picture that the command names, at the place and with the hot spot that it
/// says; it is kept for a snapshot as it was shown. Resource 0 hides it.
pub proof fn law_cursor_is_shown(
    gpu: GpuView,
    ctx_id: u32,
    scanout_id: u32,
    resource_id: u32,
    hot_x: u32,
    hot_y: u32,
    x: u32,
    y: u32,
)
    requires
        resource_id != 0,
        gpu.resources.contains_key(resource_id),
        gpu.sw2d.contains_key(resource_id),
    ensures
        ({
            let cmd = GpuCommand::UpdateCursor { scanout_id, resource_id, hot_x, hot_y, x, y };
            let hide = GpuCommand::UpdateCursor { scanout_id, resource_id: 0, hot_x, hot_y, x, y };
            let r = gpu.resources[resource_id];
            let pixels = gpu.sw2d[resource_id].host;
            let ok = ReplyView::Display(Ok(()));
            let first = gpu.ran(ctx_id, cmd, Seq::empty(), Seq::empty()).1;
            let (after, step) = gpu.ran(ctx_id, cmd, Seq::empty(), seq![ok, ok]);
            &&& first matches StepView::Ask {
                request: Request::SetCursor { width, height, hot_x: hx, hot_y: hy, .. },
                data,
                ..
            }
            &&& width == r.width && height == r.height && hx == hot_x && hy == hot_y && data.bytes
                == pixels
            &&& asks(
                gpu.ran(ctx_id, cmd, Seq::empty(), seq![ok]).1,
                Request::MoveCursor { x, y },
                BulkView { bytes: pixels, ..BulkView::none() },
            )
            &&& is_ok(step)
            &&& after.cursor matches Some(c)
            &&& c.scanout_id == scanout_id && c.width == r.width && c.height == r.height && c.hot_x
                == hot_x && c.hot_y == hot_y && c.x == x && c.y == y && c.pixels == pixels
            &&& gpu.ran(ctx_id, hide, Seq::empty(), seq![ok]).0.cursor is None
            &&& is_ok(gpu.ran(ctx_id, hide, Seq::empty(), seq![ok]).1)
        }),
{
    let cmd = GpuCommand::UpdateCursor { scanout_id, resource_id, hot_x, hot_y, x, y };
    let hide = GpuCommand::UpdateCursor { scanout_id, resource_id: 0, hot_x, hot_y, x, y };
    let ok = ReplyView::Display(Ok(()));
    let (a, step) = gpu.begin(ctx_id, cmd, Seq::empty(), false);
    lemma_no_reply(a, step);
    lemma_one(a, step, ok);
    lemma_two(a, step, ok, ok);
    let (h, hidden) = gpu.begin(ctx_id, hide, Seq::empty(), false);
    lemma_one(h, hidden, ok);
}

/// A cursor that is moved keeps its picture and its hot spot, and one that is hidden stays so.
pub proof fn law_cursor_is_moved(gpu: GpuView, ctx_id: u32, x: u32, y: u32)
    ensures
        ({
            let cmd = GpuCommand::MoveCursor { x, y };
            let (after, step) = gpu.ran(
                ctx_id,
                cmd,
                Seq::empty(),
                seq![ReplyView::Display(Ok(()))],
            );
            &&& asks(
                gpu.ran(ctx_id, cmd, Seq::empty(), Seq::empty()).1,
                Request::MoveCursor { x, y },
                BulkView::none(),
            )
            &&& is_ok(step)
            &&& after == (GpuView { cursor: after.cursor, ..gpu })
            &&& match gpu.cursor {
                Some(c) => after.cursor == Some(CursorSnapshotView { x, y, ..c }),
                None => after.cursor is None,
            }
        }),
{
    let step = gpu.begin(ctx_id, GpuCommand::MoveCursor { x, y }, Seq::empty(), false).1;
    lemma_no_reply(gpu, step);
    lemma_one(gpu, step, ReplyView::Display(Ok(())));
}

/// A submission hands its command buffer to the renderer, in the command's context, behind the
/// fences that it waits for; it is counted either way. An empty one is taken for done.
pub proof fn law_submissions_are_handed_on(
    gpu: GpuView,
    ctx_id: u32,
    size: u32,
    num_in_fences: u32,
    bytes: Seq<u8>,
    ids: Seq<u64>,
    buf: Seq<u8>,
    e: RendererError,
)
    requires
        gpu.renderer,
        bytes.len() > 0,
        payload::submission(bytes, num_in_fences, size) == Ok::<(Seq<u64>, Seq<u8>), GpuResponseView>(
            (ids, buf),
        ),
    ensures
        ({
            let cmd = GpuCommand::CmdSubmit3d { size, num_in_fences };
            let (first, step) = gpu.ran(ctx_id, cmd, bytes, Seq::empty());
            &&& asks(
                step,
                Request::Submit { ctx_id },
                BulkView { bytes: buf, ids, ..BulkView::none() },
            )
            &&& first.journal.trace.submits == gpu.journal.trace.submits.wrapping_add(1)
            &&& first.journal.entries == gpu.journal.entries
            &&& is_ok(gpu.ran(ctx_id, cmd, bytes, seq![ReplyView::Renderer(Ok(()))]).1)
            &&& refused_with(
                gpu.ran(ctx_id, cmd, bytes, seq![ReplyView::Renderer(Err(e))]).1,
                e,
            )
            &&& is_ok(gpu.ran(ctx_id, cmd, Seq::empty(), Seq::empty()).1)
        }),
{
    let cmd = GpuCommand::CmdSubmit3d { size, num_in_fences };
    let (first, step) = gpu.begin(ctx_id, cmd, bytes, false);
    lemma_no_reply(first, step);
    lemma_one(first, step, ReplyView::Renderer(Ok(())));
    lemma_one(first, step, ReplyView::Renderer(Err(e)));
}

/// The guest is told each display's size, of all of them and in order.
pub proof fn law_displays_are_told(gpu: GpuView, ctx_id: u32, i: int)
    requires
        0 <= i < gpu.displays.len(),
    ensures
        ({
            let (after, step) = gpu.ran(
                ctx_id,
                GpuCommand::GetDisplayInfo,
                Seq::empty(),
                Seq::empty(),
            );
            &&& after == gpu
            &&& step matches StepView::Done(Ok(GpuResponseView::OkDisplayInfo(told)))
            &&& told.len() == gpu.displays.len()
            &&& told[i].0 == gpu.displays[i].width && told[i].1 == gpu.displays[i].height
        }),
{
    lemma_no_reply(
        gpu,
        gpu.begin(ctx_id, GpuCommand::GetDisplayInfo, Seq::empty(), false).1,
    );
}

/// The EDID that is asked for is that of the scanout's display, and its bytes are the answer.
pub proof fn law_edids_are_told(gpu: GpuView, ctx_id: u32, scanout: u32, edid: Seq<u8>)
    ensures
        ({
            let cmd = GpuCommand::GetEdid { scanout };
            let first = gpu.ran(ctx_id, cmd, Seq::empty(), Seq::empty());
            if scanout < gpu.displays.len() {
                &&& asks(first.1, Request::Edid { scanout_id: scanout }, BulkView::none())
                &&& gpu.ran(
                    ctx_id,
                    cmd,
                    Seq::empty(),
                    seq![ReplyView::Bytes(Ok(edid))],
                ) == (gpu, StepView::Done(Ok(GpuResponseView::OkEdid(edid))))
            } else {
                first == (gpu, StepView::Done(Err(GpuResponseView::ErrInvalidScanoutId)))
            }
        }),
{
    let step = gpu.begin(ctx_id, GpuCommand::GetEdid { scanout }, Seq::empty(), false).1;
    lemma_no_reply(gpu, step);
    lemma_one(gpu, step, ReplyView::Bytes(Ok(edid)));
}

/// The capabilities that are asked for are the renderer's, and its answer is the answer.
pub proof fn law_capabilities_are_told(
    gpu: GpuView,
    ctx_id: u32,
    index: u32,
    version: u32,
    info: (u32, u32, u32),
    set: Seq<u8>,
    e: RendererError,
)
    requires
        gpu.renderer,
    ensures
        ({
            let which = GpuCommand::GetCapsetInfo { capset_index: index };
            let what = GpuCommand::GetCapset { capset_id: index, capset_version: version };
            &&& asks(
                gpu.ran(ctx_id, which, Seq::empty(), Seq::empty()).1,
                Request::CapsetInfo { index },
                BulkView::none(),
            )
            &&& asks(
                gpu.ran(ctx_id, what, Seq::empty(), Seq::empty()).1,
                Request::Capset { capset_id: index, version },
                BulkView::none(),
            )
            &&& gpu.ran(ctx_id, which, Seq::empty(), seq![ReplyView::CapsetInfo(Ok(info))]) == (
                gpu,
                StepView::Done(
                    Ok(
                        GpuResponseView::OkCapsetInfo {
                            capset_id: info.0,
                            version: info.1,
                            size: info.2,
                        },
                    ),
                ),
            )
            &&& gpu.ran(ctx_id, what, Seq::empty(), seq![ReplyView::Bytes(Ok(set))]) == (
                gpu,
                StepView::Done(Ok(GpuResponseView::OkCapset(set))),
            )
            &&& refused_with(
                gpu.ran(ctx_id, which, Seq::empty(), seq![ReplyView::CapsetInfo(Err(e))]).1,
                e,
            )
            &&& refused_with(
                gpu.ran(ctx_id, what, Seq::empty(), seq![ReplyView::Bytes(Err(e))]).1,
                e,
            )
        }),
{
    let which = gpu.begin(
        ctx_id,
        GpuCommand::GetCapsetInfo { capset_index: index },
        Seq::empty(),
        false,
    ).1;
    let what = gpu.begin(
        ctx_id,
        GpuCommand::GetCapset { capset_id: index, capset_version: version },
        Seq::empty(),
        false,
    ).1;
    lemma_no_reply(gpu, which);
    lemma_no_reply(gpu, what);
    lemma_one(gpu, which, ReplyView::CapsetInfo(Ok(info)));
    lemma_one(gpu, what, ReplyView::Bytes(Ok(set)));
    lemma_one(gpu, which, ReplyView::CapsetInfo(Err(e)));
    lemma_one(gpu, what, ReplyView::Bytes(Err(e)));
}

/// What the wire journal says to letting a blob go does not decide: the guest is answered that its
/// resource is gone.
pub proof fn law_letting_go_is_settled(gpu: GpuView, data: BulkView, done: bool)
    ensures
        gpu.resume(Stage::Settled, data, ReplyView::Done(done)) == (
            gpu,
            StepView::Done(Ok(GpuResponseView::OkNoData)),
        ),
{
}

} // verus!
