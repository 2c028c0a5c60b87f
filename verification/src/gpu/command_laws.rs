//! What holds of all commands.
use crate::gpu::command::GpuCommand;
use crate::gpu::memory;
use crate::gpu::present::Rect;
use crate::gpu::resource;
use crate::gpu::scanout;
use crate::gpu::step::{Binding, BulkView, Flush, FlushAt, ReplyView, Request, Stage, StepView};
use crate::gpu::virtio_gpu::{GpuView, Transfer3D};
use vstd::prelude::*;

verus! {

/// Only a renderer can answer the request.
pub open spec fn for_renderer(r: Request) -> bool {
    match r {
        Request::CreateResource3d { .. } => true,
        Request::CreateBlob { .. } => true,
        Request::Query { .. } => true,
        Request::Unmap { .. } => true,
        Request::Unref { .. } => true,
        Request::AttachBacking { .. } => true,
        Request::DetachBacking { .. } => true,
        Request::TransferWrite { .. } => true,
        Request::TransferRead { .. } => true,
        Request::CapsetInfo { .. } => true,
        Request::Capset { .. } => true,
        Request::CreateContext { .. } => true,
        Request::DestroyContext { .. } => true,
        Request::AttachResource { .. } => true,
        Request::DetachResource { .. } => true,
        Request::Submit { .. } => true,
        Request::CreateFence { .. } => true,
        Request::Surface { .. } => true,
        Request::SyncSurface { .. } => true,
        Request::JournalSeq { .. } => true,
        Request::JournalUnpin { .. } => true,
        Request::MapInfo { .. } => true,
        Request::MapPtr { .. } => true,
        Request::FillFromSurface { .. } => true,
        Request::FillFromResource { .. } => true,
        _ => false,
    }
}

/// A device without a renderer asks nothing of one: a command that needs it is refused.
#[verifier::rlimit(60)]
pub proof fn law_software_only(
    gpu: GpuView,
    ctx_id: u32,
    cmd: GpuCommand,
    payload: Seq<u8>,
    armed: bool,
)
    requires
        gpu.wf(),
        !gpu.renderer,
    ensures
        gpu.begin(ctx_id, cmd, payload, armed).1 matches StepView::Ask { request, .. }
            ==> !for_renderer(request),
{
    match cmd {
        GpuCommand::ResourceFlush { resource_id, rect } => {
            let fresh = gpu.begin_flush();
            assert(fresh.present is None);
            lemma_software_flush_from(
                fresh,
                Flush { resource_id, rect, resource: gpu.resources[resource_id], armed },
                0,
            );
        },
        GpuCommand::ResourceUnref { .. } => {},
        GpuCommand::SetScanout { .. } => {},
        GpuCommand::SetScanoutBlob { .. } => {},
        GpuCommand::CmdSubmit3d { .. } => {},
        _ => {},
    }
}

proof fn lemma_software_flush_from(gpu: GpuView, flush: Flush, from: u32)
    requires
        !gpu.renderer,
        gpu.present is None,
    ensures
        gpu.flush_from(flush, from).1 matches StepView::Ask { request, .. } ==> !for_renderer(
            request,
        ),
{
}

/// A flush of a device without a renderer asks nothing of one at any step.
pub proof fn law_software_flush(
    gpu: GpuView,
    flush: Flush,
    scanout_id: u32,
    at: FlushAt,
    reply: ReplyView,
)
    requires
        gpu.wf(),
        !gpu.renderer,
    ensures
        gpu.flush_reply(flush, scanout_id, at, reply).1 matches StepView::Ask { request, .. }
            ==> !for_renderer(request),
{
    if let Some(p) = gpu.present {
        assert(gpu.renderer);
    }
}

/// A command that is refused leaves no trace in the re-creation journal.
pub proof fn law_refused_is_not_journaled(
    gpu: GpuView,
    ctx_id: u32,
    cmd: GpuCommand,
    payload: Seq<u8>,
    armed: bool,
)
    ensures
        gpu.begin(ctx_id, cmd, payload, armed).1 matches StepView::Done(Err(_)) ==> gpu.begin(
            ctx_id,
            cmd,
            payload,
            armed,
        ).0.journal.entries == gpu.journal.entries,
{
}

/// A command that is refused on the way leaves no trace in the re-creation journal either.
pub proof fn law_refused_later_is_not_journaled(
    gpu: GpuView,
    stage: Stage,
    data: BulkView,
    reply: ReplyView,
)
    ensures
        gpu.resume(stage, data, reply).1 matches StepView::Done(Err(_)) ==> gpu.resume(
            stage,
            data,
            reply,
        ).0.journal.entries == gpu.journal.entries,
{
}

/// The reply is of the kind that answers the request.
pub open spec fn fits(request: Request, reply: ReplyView) -> bool {
    match request {
        Request::Edid { .. } => reply is Bytes,
        Request::ReadGuest => reply is Bytes,
        Request::Capset { .. } => reply is Bytes,
        Request::CapsetInfo { .. } => reply is CapsetInfo,
        Request::Query { .. } => reply is Query,
        Request::Surface { .. } => reply is Number,
        Request::JournalSeq { .. } => reply is Number,
        Request::MapInfo { .. } => reply is Number,
        Request::MapPtr { .. } => reply is Number,
        Request::CheckGuest => reply is Done,
        Request::JournalUnpin { .. } => reply is Done,
        Request::AddMapping { .. } => reply is Done,
        Request::RemoveMapping { .. } => reply is Done,
        Request::FillFromSoftware { .. } => reply is Done,
        Request::FillFromSurface { .. } => reply is Done,
        Request::FillFromResource { .. } => reply is Done,
        Request::ConfigureScanout { .. } => reply is Display,
        Request::DisableScanout { .. } => reply is Display,
        Request::PresentSurface { .. } => reply is Display,
        Request::AllocFrame { .. } => reply is Display,
        Request::PresentFrame { .. } => reply is Display,
        Request::SetCursor { .. } => reply is Display,
        Request::MoveCursor { .. } => reply is Display,
        _ => reply is Renderer,
    }
}

impl GpuView {
    /// The device and the command after these replies, one behind the other. A command that was
    /// answered stays so.
    pub open spec fn carried_on(self, step: StepView, replies: Seq<ReplyView>) -> (Self, StepView)
        decreases replies.len(),
    {
        if replies.len() == 0 {
            (self, step)
        } else {
            let (gpu, at) = self.carried_on(step, replies.drop_last());
            match at {
                StepView::Ask { stage, data, .. } => gpu.resume(stage, data, replies.last()),
                StepView::Done(_) => (gpu, at),
            }
        }
    }

    /// Each reply answers what was asked.
    pub open spec fn all_fit(self, step: StepView, replies: Seq<ReplyView>) -> bool
        decreases replies.len(),
    {
        replies.len() > 0 ==> {
            &&& self.all_fit(step, replies.drop_last())
            &&& self.carried_on(step, replies.drop_last()).1 matches StepView::Ask { request, .. }
                ==> fits(request, replies.last())
        }
    }
}

/// A command that is refused, at whichever step and after whatever replies, leaves no trace in the
/// re-creation journal.
pub proof fn law_refused_command_is_not_journaled(
    gpu: GpuView,
    ctx_id: u32,
    cmd: GpuCommand,
    payload: Seq<u8>,
    armed: bool,
    replies: Seq<ReplyView>,
)
    requires
        ({
            let (begun, step) = gpu.begin(ctx_id, cmd, payload, armed);
            begun.all_fit(step, replies)
        }),
    ensures
        ({
            let (begun, step) = gpu.begin(ctx_id, cmd, payload, armed);
            let (after, at) = begun.carried_on(step, replies);
            at matches StepView::Done(Err(_)) ==> after.journal.entries == gpu.journal.entries
        }),
{
    let (begun, step) = gpu.begin(ctx_id, cmd, payload, armed);
    lemma_begun(gpu, ctx_id, cmd, payload, armed);
    lemma_carried_on(gpu, begun, step, replies);
}

/// What a command was at before it can still be refused: nothing of it is in the journal. Once
/// something is, only an answer is waited for that decides nothing.
spec fn undecided(gpu: GpuView, after: GpuView, step: StepView) -> bool {
    match step {
        StepView::Done(Ok(_)) => true,
        StepView::Done(Err(_)) => after.journal.entries == gpu.journal.entries,
        StepView::Ask { request, stage, .. } => match stage {
            Stage::Settled => request is JournalUnpin,
            Stage::Queried => request is Query,
            _ => after.journal.entries == gpu.journal.entries,
        },
    }
}

proof fn lemma_begun(gpu: GpuView, ctx_id: u32, cmd: GpuCommand, payload: Seq<u8>, armed: bool)
    ensures
        ({
            let (begun, step) = gpu.begin(ctx_id, cmd, payload, armed);
            undecided(gpu, begun, step)
        }),
{
    match cmd {
        GpuCommand::ResourceUnref { resource_id } => {
            lemma_begun_unref(gpu, resource_id);
        },
        GpuCommand::SetScanout { scanout_id, resource_id, width, height } => {
            lemma_begun_scanout(
                gpu,
                Binding { scanout_id, resource_id, width, height, format: None },
            );
        },
        GpuCommand::SetScanoutBlob { scanout_id, resource_id, width, height, format } => {
            lemma_begun_scanout(
                gpu,
                Binding { scanout_id, resource_id, width, height, format: Some(format) },
            );
        },
        GpuCommand::ResourceFlush { resource_id, rect } => {
            lemma_begun_flush(gpu, resource_id, rect, armed);
        },
        _ => {
            lemma_begun_plainly(gpu, ctx_id, cmd, payload, armed);
        },
    }
}

proof fn lemma_begun_unref(gpu: GpuView, resource_id: u32)
    ensures
        undecided(gpu, gpu.cmd_unref(resource_id).0, gpu.cmd_unref(resource_id).1),
{
}

proof fn lemma_begun_scanout(gpu: GpuView, binding: Binding)
    ensures
        undecided(gpu, gpu.cmd_scanout(binding).0, gpu.cmd_scanout(binding).1),
{
}

proof fn lemma_begun_flush(gpu: GpuView, resource_id: u32, rect: Rect, armed: bool)
    ensures
        ({
            let (begun, step) = gpu.flush_resource(resource_id, rect, armed);
            undecided(gpu, begun, step)
        }),
{
}

proof fn lemma_begun_plainly(
    gpu: GpuView,
    ctx_id: u32,
    cmd: GpuCommand,
    payload: Seq<u8>,
    armed: bool,
)
    requires
        !(cmd is ResourceUnref),
        !(cmd is SetScanout),
        !(cmd is SetScanoutBlob),
        !(cmd is ResourceFlush),
    ensures
        ({
            let (begun, step) = gpu.begin(ctx_id, cmd, payload, armed);
            undecided(gpu, begun, step)
        }),
{
}

proof fn lemma_resumed(gpu: GpuView, stage: Stage, data: BulkView, reply: ReplyView)
    requires
        !(stage is Settled),
        !(stage is Queried),
    ensures
        ({
            let (after, step) = gpu.resume(stage, data, reply);
            undecided(gpu, after, step)
        }),
{
}

proof fn lemma_carried_on(gpu: GpuView, begun: GpuView, step: StepView, replies: Seq<ReplyView>)
    requires
        undecided(gpu, begun, step),
        begun.all_fit(step, replies),
    ensures
        ({
            let (after, at) = begun.carried_on(step, replies);
            undecided(gpu, after, at)
        }),
    decreases replies.len(),
{
    if replies.len() > 0 {
        lemma_carried_on(gpu, begun, step, replies.drop_last());
        let (before, at) = begun.carried_on(step, replies.drop_last());
        if let StepView::Ask { stage, data, .. } = at {
            if !(stage is Settled) && !(stage is Queried) {
                lemma_resumed(before, stage, data, replies.last());
            }
        }
    }
}

/// A scanout that is bound to another resource leaves the one before and is shown by the new one,
/// and by no more than that.
pub proof fn law_scanout_moves(
    gpu: GpuView,
    scanout_id: u32,
    resource_id: u32,
    width: u32,
    height: u32,
    surface: Option<u32>,
    other: u32,
)
    requires
        gpu.wf(),
        resource_id != 0,
        gpu.set_scanout(scanout_id, resource_id, width, height).1 is Ok,
        gpu.scanouts[scanout_id as int] matches Some(b) ==> gpu.resources[b.resource_id].scanouts.has(
            scanout_id,
        ),
        gpu.resources.contains_key(other),
        gpu.resources[other].scanouts.has(scanout_id) ==> match gpu.scanouts[scanout_id as int] {
            Some(b) => b.resource_id == other,
            None => false,
        },
    ensures
        ({
            let after = gpu.set_scanout(
                scanout_id,
                resource_id,
                width,
                height,
            ).0.scanout_configured(scanout_id, resource_id, width, height, surface);
            &&& after.scanouts[scanout_id as int] matches Some(b)
            &&& b.resource_id == resource_id
            &&& after.resources[resource_id].scanouts.has(scanout_id)
            &&& other != resource_id ==> !after.resources[other].scanouts.has(scanout_id)
        }),
{
    let free = gpu.release_scanout(scanout_id);
    scanout::lemma_bits(free.resources[resource_id].scanouts, scanout_id, scanout_id);
    scanout::lemma_bits(gpu.resources[other].scanouts, scanout_id, scanout_id);
}

/// A transfer of a software-2D picture asks for its backing, range by range, as far as the picture
/// has room; and whatever is read of each range, the host's copy then begins with all of it, one
/// range behind the other. The rest of the copy is as it was.
pub proof fn law_transfer_copies_the_backing(
    gpu: GpuView,
    ctx_id: u32,
    resource_id: u32,
    transfer: Transfer3D,
    pieces: Seq<Seq<u8>>,
)
    requires
        gpu.sw2d.contains_key(resource_id),
        memory::measured(pieces, gpu.sw2d[resource_id].wanted()),
    ensures
        gpu.cmd_transfer_write(ctx_id, resource_id, transfer) == (StepView::Ask {
            request: Request::ReadGuest,
            stage: Stage::Gather { resource_id },
            data: BulkView { ranges: gpu.sw2d[resource_id].wanted(), ..BulkView::none() },
        }),
        ({
            let bytes = memory::joined(pieces);
            let host = gpu.sw2d[resource_id].host;
            &&& bytes.len() <= host.len()
            &&& gpu.resume(
                Stage::Gather { resource_id },
                BulkView::none(),
                ReplyView::Bytes(Ok(bytes)),
            ).0.sw2d[resource_id].host == bytes + host.skip(bytes.len() as int)
        }),
{
    let sw = gpu.sw2d[resource_id];
    let bytes = memory::joined(pieces);
    memory::lemma_joined_len(pieces, sw.wanted());
    resource::lemma_within_room(sw.backing, sw.host.len(), sw.backing.len());
    assert(sw.filled(bytes).host =~= bytes + sw.host.skip(bytes.len() as int));
}

} // verus!
