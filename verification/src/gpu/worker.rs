//! The worker: how an activation begins, what its events lead to and what its end leaves.
//!
//! A device reset does not wipe a quiescent session at once. It is parked, and the next activation
//! decides: one that thaws the same guest adopts it, any other wipes it first.
use crate::display::EdidParams;
use crate::gpu::fence;
use crate::gpu::fence::{interrupt_wanted, FenceDescriptor, FenceState, VirtioGpuRing};
use crate::gpu::protocol::{VIRTIO_GPU_EVENT_DISPLAY, VIRTIO_GPU_MAX_SCANOUTS};
use crate::gpu::resource::{Sw2dView, VirtioGpuResource};
use crate::gpu::virtio_gpu::{GpuView, VirtioGpu};
use std::collections::VecDeque;
use vstd::prelude::*;

verus! {

/// How long a reset waits for frames and fences in flight.
pub const CLASSIFY_DRAIN_NS: u64 = 1_500_000_000;

/// How long a reset sleeps between looks at them.
pub const CLASSIFY_POLL_NS: u64 = 10_000_000;

/// How long a snapshot waits for fences in flight.
pub const SNAPSHOT_DRAIN_NS: u64 = 5_000_000_000;

/// How long a snapshot sleeps between looks at them.
pub const SNAPSHOT_POLL_NS: u64 = 5_000_000;

/// How often wakes are reported.
pub const WAKE_REPORT_NS: u64 = 5_000_000_000;

/// A command from the device.
#[derive(Clone, Copy, PartialEq, Eq, Structural, Debug)]
pub enum WorkerCmd {
    /// Bind a transport. `thaw`: its queues were armed again from the activation before.
    Activate { thaw: bool },
    /// Release the transport and keep the renderer.
    Deactivate,
    Shutdown,
    Snapshot,
}

/// How servicing a transport ended.
#[derive(Clone, Copy, PartialEq, Eq, Structural, Debug)]
pub enum InnerExit {
    Deactivate,
    Shutdown,
}

/// What a worker without a transport does about a command.
#[derive(Clone, Copy, PartialEq, Eq, Structural, Debug)]
pub enum IdleAction {
    /// Bind the transport that came with the command.
    Bind,
    Wait,
    Snapshot,
    Exit,
}

/// Whether a session waits, without a transport, for the activation that decides about it.
pub struct Session {
    pub parked: bool,
}

/// What became of the session of an activation that ended.
#[derive(Clone, Copy, PartialEq, Eq, Structural, Debug)]
pub enum SessionEnd {
    /// It waits for the next activation. How much present bookkeeping was dropped: flush cookies
    /// and awaited confirmations.
    Parked { cookies: usize, shown: usize },
    Wiped,
}

impl Session {
    pub fn new() -> (r: Self)
        ensures
            !r.parked,
    {
        Session { parked: false }
    }

    /// Whether this command ends a parked session, and with it what the renderer keeps of it.
    pub fn ends_parked(&self, cmd: Option<WorkerCmd>) -> (r: bool)
        ensures
            r == (self.parked && wipes(cmd)),
    {
        self.parked && match cmd {
            Some(WorkerCmd::Activate { thaw }) => !thaw,
            Some(WorkerCmd::Shutdown) | None => true,
            Some(WorkerCmd::Deactivate) | Some(WorkerCmd::Snapshot) => false,
        }
    }

    /// A command while no transport is bound; `None` when nobody is left to send any. An
    /// activation that is not a thaw wipes a parked session before it begins, and so does the end.
    pub fn idle_command(
        &mut self,
        gpu: &mut VirtioGpu,
        fence_state: &mut FenceState,
        cmd: Option<WorkerCmd>,
    ) -> (action: IdleAction)
        requires
            old(gpu)@.wf(),
        ensures
            final(gpu)@.wf(),
            action == match cmd {
                Some(WorkerCmd::Activate { .. }) => IdleAction::Bind,
                Some(WorkerCmd::Deactivate) => IdleAction::Wait,
                Some(WorkerCmd::Snapshot) => IdleAction::Snapshot,
                Some(WorkerCmd::Shutdown) => IdleAction::Exit,
                None => IdleAction::Exit,
            },
            final(gpu)@ == session_begun(old(gpu)@, old(self).parked, cmd),
            if old(self).parked && wipes(cmd) {
                no_fences(*final(fence_state))
            } else {
                *final(fence_state) == *old(fence_state)
            },
            final(self).parked == (old(self).parked && (action is Wait || action is Snapshot)),
    {
        match cmd {
            Some(WorkerCmd::Activate { thaw }) => {
                if self.parked && !thaw {
                    gpu.reset_session(fence_state);
                }
                self.parked = false;
                IdleAction::Bind
            },
            Some(WorkerCmd::Deactivate) => IdleAction::Wait,
            Some(WorkerCmd::Snapshot) => IdleAction::Snapshot,
            Some(WorkerCmd::Shutdown) | None => {
                if self.parked {
                    gpu.reset_session(fence_state);
                }
                self.parked = false;
                IdleAction::Exit
            },
        }
    }

    /// A transport was released. After a device reset a session with nothing in flight is parked;
    /// any other is wiped, and so is every session at the end. `retired` says whether retired
    /// presents still wait to be looked at.
    pub fn activation_ended(
        &mut self,
        gpu: &mut VirtioGpu,
        fence_state: &mut FenceState,
        exit: InnerExit,
        retired: bool,
    ) -> (end: SessionEnd)
        requires
            old(gpu)@.wf(),
        ensures
            final(gpu)@.wf(),
            (final(gpu)@, final(self).parked) == session_ended(
                old(gpu)@,
                *old(fence_state),
                exit,
                retired,
            ),
            if final(self).parked {
                end is Parked && *final(fence_state) == *old(fence_state)
            } else {
                end is Wiped && no_fences(*final(fence_state))
            },
            end matches SessionEnd::Parked { cookies, shown } ==> cookies == 0 && shown == 0,
    {
        match exit {
            InnerExit::Deactivate => if fence_state.outstanding() == 0 && gpu.present_quiescent(
                retired,
            ) {
                let (cookies, shown) = gpu.discard_stale_present_bookkeeping();
                self.parked = true;
                proof {
                    if let Some(p) = old(gpu)@.present {
                        assert(p.flush_cookies =~= Seq::empty());
                        assert(p.awaiting =~= Seq::empty());
                    }
                }
                SessionEnd::Parked { cookies, shown }
            } else {
                gpu.reset_session(fence_state);
                self.parked = false;
                SessionEnd::Wiped
            },
            InnerExit::Shutdown => {
                gpu.reset_session(fence_state);
                self.parked = false;
                SessionEnd::Wiped
            },
        }
    }
}

/// The command ends the life of a parked session.
pub open spec fn wipes(cmd: Option<WorkerCmd>) -> bool {
    match cmd {
        Some(WorkerCmd::Activate { thaw }) => !thaw,
        Some(WorkerCmd::Deactivate) => false,
        Some(WorkerCmd::Snapshot) => false,
        Some(WorkerCmd::Shutdown) => true,
        None => true,
    }
}

/// The device after a command to a worker without a transport.
pub open spec fn session_begun(gpu: GpuView, parked: bool, cmd: Option<WorkerCmd>) -> GpuView {
    if parked && wipes(cmd) {
        gpu.reset_session()
    } else {
        gpu
    }
}

/// The device after its transport was released, and whether its session is parked.
pub open spec fn session_ended(
    gpu: GpuView,
    fences: FenceState,
    exit: InnerExit,
    retired: bool,
) -> (GpuView, bool) {
    if exit == InnerExit::Deactivate && quiet(gpu, fences, retired) {
        (gpu, true)
    } else {
        (gpu.reset_session(), false)
    }
}

/// No descriptor waits and no ring has completed anything.
pub open spec fn no_fences(f: FenceState) -> bool {
    &&& f.pending() == Seq::<FenceDescriptor>::empty()
    &&& forall|r: VirtioGpuRing| #[trigger] f.watermark(r) == 0
}

/// Nothing in flight refers to the queue of this activation.
pub open spec fn quiet(gpu: GpuView, fences: FenceState, retired: bool) -> bool {
    &&& fences.pending().len() == 0
    &&& match gpu.present {
        Some(p) => p.quiescent() && !retired,
        None => true,
    }
}

/// Whether a drain goes on.
#[derive(Clone, Copy, PartialEq, Eq, Structural, Debug)]
pub enum DrainVerdict {
    Quiet,
    TimedOut,
    /// Look again after this long.
    Wait(u64),
}

/// Whether to wait for what is in flight: until nothing is, or the time is up.
pub fn drain_verdict(quiet: bool, waited_ns: u64, limit_ns: u64, poll_ns: u64) -> (r: DrainVerdict)
    ensures
        r == if quiet {
            DrainVerdict::Quiet
        } else if waited_ns >= limit_ns {
            DrainVerdict::TimedOut
        } else {
            DrainVerdict::Wait(poll_ns)
        },
{
    if quiet {
        DrainVerdict::Quiet
    } else if waited_ns >= limit_ns {
        DrainVerdict::TimedOut
    } else {
        DrainVerdict::Wait(poll_ns)
    }
}

/// The drain before a reset is classified: presents and fences, for as long as a held fence and a
/// confirmation can take.
pub fn drain_for_classify(
    gpu: &VirtioGpu,
    fence_state: &FenceState,
    retired: bool,
    waited_ns: u64,
) -> (r: DrainVerdict)
    ensures
        r == if quiet(gpu@, *fence_state, retired) {
            DrainVerdict::Quiet
        } else if waited_ns >= CLASSIFY_DRAIN_NS {
            DrainVerdict::TimedOut
        } else {
            DrainVerdict::Wait(CLASSIFY_POLL_NS)
        },
{
    let quiet: bool = fence_state.outstanding() == 0 && gpu.present_quiescent(retired);
    drain_verdict(quiet, waited_ns, CLASSIFY_DRAIN_NS, CLASSIFY_POLL_NS)
}

/// The drain before a snapshot: fences only, which would never signal once restored.
pub fn drain_fences(fence_state: &FenceState, waited_ns: u64) -> (r: DrainVerdict)
    ensures
        r == if fence_state.pending().len() == 0 {
            DrainVerdict::Quiet
        } else if waited_ns >= SNAPSHOT_DRAIN_NS {
            DrainVerdict::TimedOut
        } else {
            DrainVerdict::Wait(SNAPSHOT_POLL_NS)
        },
{
    drain_verdict(fence_state.outstanding() == 0, waited_ns, SNAPSHOT_DRAIN_NS, SNAPSHOT_POLL_NS)
}

/// What woke the worker.
#[derive(Clone, Copy, PartialEq, Eq, Structural, Debug)]
pub enum Source {
    Stop,
    Control,
    Cursor,
    Resize,
    Present,
    RendererPoll,
    Unknown,
}

/// The descriptors that the worker waits on; a negative one is not there.
#[derive(Clone, Copy, PartialEq, Eq, Structural, Debug)]
pub struct WorkerFds {
    pub stop: i32,
    pub control: i32,
    pub cursor: i32,
    pub resize: i32,
    pub present: i32,
    pub renderer_poll: i32,
}

impl WorkerFds {
    pub open spec fn source(self, fd: i32) -> Source {
        if fd == self.stop {
            Source::Stop
        } else if fd == self.control {
            Source::Control
        } else if fd == self.cursor {
            Source::Cursor
        } else if fd == self.resize {
            Source::Resize
        } else if self.present >= 0 && fd == self.present {
            Source::Present
        } else if self.renderer_poll >= 0 && fd == self.renderer_poll {
            Source::RendererPoll
        } else {
            Source::Unknown
        }
    }

    /// Which event a descriptor stands for.
    pub fn source_of(&self, fd: i32) -> (r: Source)
        ensures
            r == self.source(fd),
    {
        if fd == self.stop {
            Source::Stop
        } else if fd == self.control {
            Source::Control
        } else if fd == self.cursor {
            Source::Cursor
        } else if fd == self.resize {
            Source::Resize
        } else if self.present >= 0 && fd == self.present {
            Source::Present
        } else if self.renderer_poll >= 0 && fd == self.renderer_poll {
            Source::RendererPoll
        } else {
            Source::Unknown
        }
    }
}

/// What a pending command leads to while a transport is bound.
#[derive(Clone, Copy, PartialEq, Eq, Structural, Debug)]
pub enum StopAction {
    Exit(InnerExit),
    Snapshot,
    Ignore,
}

/// What is found when the worker is told to look for a command.
#[derive(Clone, Copy, PartialEq, Eq, Structural, Debug)]
pub enum StopPeek {
    Cmd(WorkerCmd),
    /// A spurious wake.
    Empty,
    /// Nobody is left to send a command.
    Disconnected,
}

/// A command while a transport is bound. An activation on top of one is ignored.
pub fn stop_action(peek: StopPeek) -> (r: StopAction)
    ensures
        r == match peek {
            StopPeek::Cmd(WorkerCmd::Deactivate) => StopAction::Exit(InnerExit::Deactivate),
            StopPeek::Cmd(WorkerCmd::Shutdown) => StopAction::Exit(InnerExit::Shutdown),
            StopPeek::Cmd(WorkerCmd::Snapshot) => StopAction::Snapshot,
            StopPeek::Cmd(WorkerCmd::Activate { .. }) => StopAction::Ignore,
            StopPeek::Empty => StopAction::Ignore,
            StopPeek::Disconnected => StopAction::Exit(InnerExit::Shutdown),
        },
{
    match peek {
        StopPeek::Cmd(WorkerCmd::Deactivate) => StopAction::Exit(InnerExit::Deactivate),
        StopPeek::Cmd(WorkerCmd::Shutdown) => StopAction::Exit(InnerExit::Shutdown),
        StopPeek::Cmd(WorkerCmd::Snapshot) => StopAction::Snapshot,
        StopPeek::Cmd(WorkerCmd::Activate { .. }) => StopAction::Ignore,
        StopPeek::Empty => StopAction::Ignore,
        StopPeek::Disconnected => StopAction::Exit(InnerExit::Shutdown),
    }
}

/// How far a queue is drained. The guest's notifications are off while it is, and a descriptor
/// that came in between is found when they are switched on again.
#[derive(Clone, Copy, PartialEq, Eq, Structural, Debug)]
pub enum Drain {
    /// Switch the guest's notifications off.
    Disable,
    /// Carry out what is in the queue.
    Process,
    /// Ask whether the guest waits for an interrupt.
    AskNotify,
    /// Interrupt the guest.
    Signal,
    /// Switch the guest's notifications on and look whether more came.
    Enable,
    Finished,
}

/// What a drain's action came to.
#[derive(Clone, Copy, PartialEq, Eq, Structural, Debug)]
pub enum DrainEvent {
    Done,
    /// Whether a descriptor went back.
    Processed(bool),
    /// Whether the guest waits; `None` when the queue cannot say.
    Notify(Option<bool>),
    /// Whether more came; `None` when the notifications cannot be switched on.
    Enabled(Option<bool>),
}

impl Drain {
    pub open spec fn after(self, event: DrainEvent) -> Drain {
        match (self, event) {
            (Drain::Disable, _) => Drain::Process,
            (Drain::Process, DrainEvent::Processed(true)) => Drain::AskNotify,
            (Drain::Process, _) => Drain::Enable,
            (Drain::AskNotify, DrainEvent::Notify(Some(false))) => Drain::Enable,
            (Drain::AskNotify, _) => Drain::Signal,
            (Drain::Signal, _) => Drain::Enable,
            (Drain::Enable, DrainEvent::Enabled(Some(true))) => Drain::Disable,
            (Drain::Enable, _) => Drain::Finished,
            (Drain::Finished, _) => Drain::Finished,
        }
    }

    /// The next action of a drain.
    pub fn next(self, event: DrainEvent) -> (r: Drain)
        ensures
            r == self.after(event),
    {
        match (self, event) {
            (Drain::Disable, _) => Drain::Process,
            (Drain::Process, DrainEvent::Processed(used)) => if used {
                Drain::AskNotify
            } else {
                Drain::Enable
            },
            (Drain::Process, _) => Drain::Enable,
            (Drain::AskNotify, DrainEvent::Notify(n)) => if interrupt_wanted(true, n) {
                Drain::Signal
            } else {
                Drain::Enable
            },
            (Drain::AskNotify, _) => Drain::Signal,
            (Drain::Signal, _) => Drain::Enable,
            (Drain::Enable, DrainEvent::Enabled(Some(more))) => if more {
                Drain::Disable
            } else {
                Drain::Finished
            },
            (Drain::Enable, _) => Drain::Finished,
            (Drain::Finished, _) => Drain::Finished,
        }
    }
}

/// A drain never ends with work that the guest was not told of: one that gave a descriptor back
/// interrupts the guest before it goes on, unless the guest said that it does not wait.
pub proof fn law_used_descriptors_are_signalled(notify: Option<bool>)
    ensures
        Drain::Process.after(DrainEvent::Processed(true)) == Drain::AskNotify,
        notify != Some(false) ==> Drain::AskNotify.after(DrainEvent::Notify(notify))
            == Drain::Signal,
{
}

/// A drain looks at the queue again whenever something came in while notifications were off.
pub proof fn law_drain_misses_nothing(enabled: Option<bool>)
    ensures
        enabled == Some(true) ==> Drain::Enable.after(DrainEvent::Enabled(enabled)).after(
            DrainEvent::Done,
        ) == Drain::Process,
        Drain::Enable.after(DrainEvent::Enabled(enabled)) == Drain::Finished <==> enabled != Some(
            true,
        ),
{
}

/// A change to a display that the host pushes to the guest.
#[derive(Clone, Copy)]
pub struct DisplayUpdate {
    pub display_id: u32,
    pub size: Option<(u32, u32)>,
    pub edid: Option<EdidParams>,
    pub connected: Option<bool>,
}

impl GpuView {
    pub open spec fn display_updated(self, u: DisplayUpdate) -> Self {
        let sized = match u.size {
            Some((w, h)) => self.set_display_size(u.display_id, w, h),
            None => self,
        };
        let described = match u.edid {
            Some(p) => sized.set_display_edid(u.display_id, p),
            None => sized,
        };
        match u.connected {
            Some(c) => described.set_display_connected(u.display_id, c),
            None => described,
        }
    }
}

/// Applies one display update and sets the event that tells the guest to look. Returns whether
/// there was one, and whether more wait: each update reaches the guest as an event of its own.
pub fn take_display_update(
    gpu: &mut VirtioGpu,
    pending: &mut VecDeque<DisplayUpdate>,
    events_read: &mut u32,
) -> (r: (bool, bool))
    requires
        old(gpu)@.wf(),
    ensures
        final(gpu)@.wf(),
        r.0 == (old(pending)@.len() > 0),
        r.1 == (old(pending)@.len() > 1),
        if r.0 {
            &&& final(gpu)@ == old(gpu)@.display_updated(old(pending)@[0])
            &&& final(pending)@ == old(pending)@.skip(1)
            &&& *final(events_read) == *old(events_read) | VIRTIO_GPU_EVENT_DISPLAY
        } else {
            &&& final(gpu)@ == old(gpu)@
            &&& final(pending)@ == old(pending)@
            &&& *final(events_read) == *old(events_read)
        },
{
    match pending.pop_front() {
        Some(u) => {
            assert(pending@ =~= old(pending)@.skip(1));
            if let Some((w, h)) = u.size {
                gpu.set_display_size(u.display_id, w, h);
            }
            if let Some(p) = u.edid {
                gpu.set_display_edid(u.display_id, p);
            }
            if let Some(c) = u.connected {
                gpu.set_display_connected(u.display_id, c);
            }
            *events_read = *events_read | VIRTIO_GPU_EVENT_DISPLAY;
            (true, pending.len() > 0)
        },
        None => (false, false),
    }
}

/// How often the worker woke, and what for.
#[derive(Clone, Copy, PartialEq, Eq, Structural, Debug)]
pub struct WakeCounts {
    pub wakes: u64,
    pub control: u64,
    pub cursor: u64,
    pub present: u64,
    pub resize: u64,
    pub other: u64,
}

impl WakeCounts {
    pub fn new() -> (r: Self)
        ensures
            r == (WakeCounts { wakes: 0, control: 0, cursor: 0, present: 0, resize: 0, other: 0 }),
    {
        WakeCounts { wakes: 0, control: 0, cursor: 0, present: 0, resize: 0, other: 0 }
    }

    /// One more event of this source.
    pub open spec fn plus(self, source: Source) -> Self {
        match source {
            Source::Control => WakeCounts { control: self.control.wrapping_add(1), ..self },
            Source::Cursor => WakeCounts { cursor: self.cursor.wrapping_add(1), ..self },
            Source::Present => WakeCounts { present: self.present.wrapping_add(1), ..self },
            Source::Resize => WakeCounts { resize: self.resize.wrapping_add(1), ..self },
            _ => WakeCounts { other: self.other.wrapping_add(1), ..self },
        }
    }

    /// One more of each of these events.
    pub open spec fn plus_all(self, sources: Seq<Source>) -> Self
        decreases sources.len(),
    {
        if sources.len() == 0 {
            self
        } else {
            self.plus_all(sources.drop_last()).plus(sources.last())
        }
    }

    /// Counts a wake and the events that it brought.
    pub fn note_wake(&mut self, sources: &[Source])
        ensures
            *final(self) == (WakeCounts {
                wakes: old(self).wakes.wrapping_add(1),
                ..*old(self)
            }).plus_all(sources@),
    {
        self.wakes = self.wakes.wrapping_add(1);
        let ghost start = *self;
        let mut i: usize = 0;
        assert(sources@.take(0) =~= Seq::empty());
        while i < sources.len()
            invariant
                i <= sources@.len(),
                *self == start.plus_all(sources@.take(i as int)),
            decreases sources@.len() - i,
        {
            assert(sources@.take(i + 1).drop_last() =~= sources@.take(i as int));
            match sources[i] {
                Source::Control => {
                    self.control = self.control.wrapping_add(1);
                },
                Source::Cursor => {
                    self.cursor = self.cursor.wrapping_add(1);
                },
                Source::Present => {
                    self.present = self.present.wrapping_add(1);
                },
                Source::Resize => {
                    self.resize = self.resize.wrapping_add(1);
                },
                _ => {
                    self.other = self.other.wrapping_add(1);
                },
            }
            i = i + 1;
        }
        assert(sources@.take(sources@.len() as int) =~= sources@);
    }

    /// The counts to report, where the time has come; counting then starts over.
    pub fn take_report(&mut self, elapsed_ns: u64) -> (r: Option<WakeCounts>)
        ensures
            if elapsed_ns >= WAKE_REPORT_NS {
                &&& r == Some(*old(self))
                &&& *final(self) == (WakeCounts {
                    wakes: 0,
                    control: 0,
                    cursor: 0,
                    present: 0,
                    resize: 0,
                    other: 0,
                })
            } else {
                r is None && *final(self) == *old(self)
            },
    {
        if elapsed_ns >= WAKE_REPORT_NS {
            let r: WakeCounts = *self;
            *self = WakeCounts::new();
            Some(r)
        } else {
            None
        }
    }
}

/// A session survives a reset exactly when nothing was in flight and the next activation thaws the
/// guest that made it; it is then as it was. Otherwise nothing of it is left when the guest starts
/// over.
pub proof fn law_session_across_reset(gpu: GpuView, fences: FenceState, retired: bool, thaw: bool)
    ensures
        ({
            let (idle, parked) = session_ended(gpu, fences, InnerExit::Deactivate, retired);
            let after = session_begun(idle, parked, Some(WorkerCmd::Activate { thaw }));
            if quiet(gpu, fences, retired) && thaw {
                after == gpu
            } else {
                &&& after.resources == Map::<u32, VirtioGpuResource>::empty()
                &&& after.sw2d == Map::<u32, Sw2dView>::empty()
                &&& forall|i: int|
                    0 <= i < VIRTIO_GPU_MAX_SCANOUTS ==> (#[trigger] after.scanouts[i]) is None
                &&& after.journal.entries.len() == 0
                &&& after.cursor is None
                &&& !after.vrend_ctx_seen
                &&& after.present matches Some(p) ==> p.quiescent()
                &&& after.displays == gpu.displays
                &&& after.renderer == gpu.renderer
            }
        }),
{
}

/// A worker that ends leaves no session behind, parked or not.
pub proof fn law_shutdown_wipes(gpu: GpuView, fences: FenceState, retired: bool, parked: bool)
    ensures
        session_ended(gpu, fences, InnerExit::Shutdown, retired) == (gpu.reset_session(), false),
        parked ==> session_begun(gpu, parked, Some(WorkerCmd::Shutdown)) == gpu.reset_session(),
{
}

} // verus!
