//! Restoring a snapshot: the journal's ops are carried out again, interleaved with the renderer's
//! wire journals.
//!
//! A blob is made once everything that its context's wire journal had recorded before it was fed.
//! A wire entry that the renderer drops was stale and is only counted; an op that cannot be
//! carried out leaves guest-visible state missing and fails the restore. Rings start last.
use crate::gpu_snapshot;
use crate::gpu_snapshot::{
    GpuJournalEntry, GpuJournalEntryView, GpuJournalOp, GpuJournalOpView, GpuSnapshotPayload,
    GpuSnapshotPayloadView,
};
use vstd::prelude::*;

verus! {

/// The class of wire entries that belong to a ring's own stream.
pub const VKR_KLASS_RING_STREAM: u32 = 8;

/// How often a context is asked whether it can be replayed into, a millisecond apart.
pub const BEGIN_TRIES: u32 = 2000;

/// What a restore has to know of a wire entry.
#[derive(Clone, Copy, PartialEq, Eq, Structural, Debug)]
pub struct WireEntry {
    pub seq: u64,
    pub klass: u32,
    pub ring_key: u64,
}

impl WireEntry {
    /// The ring whose stream the entry goes to; `None` for the context itself.
    pub open spec fn ring(self) -> Option<u64> {
        if self.klass == VKR_KLASS_RING_STREAM && self.ring_key != 0 {
            Some(self.ring_key)
        } else {
            None
        }
    }

    /// The place of the entry's class among the counted ones.
    pub open spec fn class_index(self) -> int {
        if self.klass < 8 {
            self.klass as int
        } else {
            8
        }
    }

    /// The entry belongs to a ring's creation, destruction or stream: dropping it may corrupt what
    /// comes after.
    pub fn load_bearing(&self) -> (r: bool)
        ensures
            r == (self.klass >= 6),
    {
        self.klass >= 6
    }
}

/// A context's wire journal.
pub struct WireJournal {
    pub ctx_id: u32,
    pub entries: Vec<WireEntry>,
}

pub struct WireView {
    pub ctx_id: u32,
    pub entries: Seq<WireEntry>,
}

impl View for WireJournal {
    type V = WireView;

    open spec fn view(&self) -> WireView {
        WireView { ctx_id: self.ctx_id, entries: self.entries@ }
    }
}

pub open spec fn wires_view(v: Seq<WireJournal>) -> Seq<WireView> {
    v.map_values(|w: WireJournal| w@)
}

/// How bad it is when an op cannot be carried out.
#[derive(Clone, Copy, PartialEq, Eq, Structural, Debug)]
pub enum Severity {
    /// The restore ends at once.
    Fatal,
    /// The restore goes on, and fails.
    Counted,
    /// The restore goes on.
    Cosmetic,
}

pub open spec fn severity_of(op: GpuJournalOpView) -> Severity {
    match op {
        GpuJournalOpView::CtxCreate { .. } => Severity::Fatal,
        GpuJournalOpView::SetScanoutBlob { .. } => Severity::Cosmetic,
        GpuJournalOpView::SetScanout { .. } => Severity::Cosmetic,
        _ => Severity::Counted,
    }
}

fn op_severity(op: &GpuJournalOp) -> (r: Severity)
    ensures
        r == severity_of(op@),
{
    match op {
        GpuJournalOp::CtxCreate { .. } => Severity::Fatal,
        GpuJournalOp::SetScanoutBlob { .. } => Severity::Cosmetic,
        GpuJournalOp::SetScanout { .. } => Severity::Cosmetic,
        _ => Severity::Counted,
    }
}

/// Where a restore is. Each of these but the last waits for an answer.
#[derive(Clone, Copy, PartialEq, Eq, Structural, Debug)]
pub enum ReplayAt {
    /// Feeds the next wire entry that op `op` waits for.
    Wire { op: usize, wire: usize },
    /// Asks where the new wire journal is, for op `op`.
    AskSeq { op: usize, wire: usize },
    /// Carries op `op` out.
    Run { op: usize, rebased: Option<u64> },
    /// Waits until the context that op `op` created can be replayed into.
    Begin { op: usize },
    /// Writes the content of the blob that op `op` created.
    Content { op: usize, content: usize },
    /// Feeds the rest of a wire journal.
    Rest { wire: usize },
    /// Uploads what only the GL renderer held of a wire journal's context.
    Classic { wire: usize, content: usize },
    /// Writes a device memory of a wire journal's context.
    Memory { wire: usize, content: usize },
    /// Restores the sync state of a wire journal's context.
    Sync { wire: usize, state: usize },
    /// Ends the replay into a wire journal's context, which starts its rings.
    End { wire: usize },
    /// Detaches what op `op` attached for the replay only.
    Detach { op: usize },
    /// Presents a frame that a scanout showed.
    Frame { frame: usize },
    /// The restore is over, and whether it succeeded.
    Finished { ok: bool },
}

/// What a restore asks for.
#[derive(Clone, Copy, PartialEq, Eq, Structural, Debug)]
pub enum ReplayAction {
    /// Feed a wire entry, to a ring's stream or to the context.
    Feed { wire: usize, entry: usize, ring: Option<u64> },
    /// The new wire journal's last number in a context.
    AskSeq { ctx_id: u32 },
    /// Carry an op of the journal out.
    RunOp { op: usize },
    /// Wait, for as many tries as are allowed, until a context can be replayed into.
    BeginContext { ctx_id: u32 },
    WriteBlob { resource_id: u32, content: usize },
    UploadClassic { content: usize },
    WriteMemory { content: usize },
    RestoreSync { state: usize },
    EndContext { ctx_id: u32 },
    Detach { ctx_id: u32, resource_id: u32 },
    PresentFrame { frame: usize },
    Finish { ok: bool },
}

/// The answer to an action.
#[derive(Clone, Copy, PartialEq, Eq, Structural, Debug)]
pub enum ReplayEvent {
    Done(bool),
    Number(u64),
}

/// What went wrong so far.
pub struct Tally {
    /// Wire entries that the renderer dropped.
    pub wire_failed: u32,
    /// Ops that could not be carried out.
    pub op_failed: u32,
    /// Device memories and resources of the GL renderer that could not be written.
    pub content_failed: u32,
    /// The dropped wire entries by class; the last counts every class from there on.
    pub drops: Vec<u32>,
}

pub struct TallyView {
    pub wire_failed: u32,
    pub op_failed: u32,
    pub content_failed: u32,
    pub drops: Seq<u32>,
}

/// One more, as far as the counter goes.
pub open spec fn more(n: u32) -> u32 {
    if n < u32::MAX {
        (n + 1) as u32
    } else {
        n
    }
}

fn count(n: u32) -> (r: u32)
    ensures
        r == more(n),
{
    n.saturating_add(1)
}

impl View for Tally {
    type V = TallyView;

    open spec fn view(&self) -> TallyView {
        TallyView {
            wire_failed: self.wire_failed,
            op_failed: self.op_failed,
            content_failed: self.content_failed,
            drops: self.drops@,
        }
    }
}

impl TallyView {
    pub open spec fn wire_dropped(self, e: WireEntry) -> Self {
        let i = e.class_index();
        TallyView {
            wire_failed: more(self.wire_failed),
            drops: self.drops.update(i, more(self.drops[i])),
            ..self
        }
    }
}

/// A restore that is under way.
pub struct Replay {
    ops: Vec<GpuJournalEntry>,
    wires: Vec<WireJournal>,
    /// How far each wire journal was fed.
    fed: Vec<usize>,
    /// The blobs whose contents there are.
    blobs: Vec<u32>,
    /// The context of each device memory whose content there is.
    memories: Vec<u32>,
    /// The context of each sync state.
    syncs: Vec<u32>,
    /// The context of each content of the GL renderer's.
    classics: Vec<u32>,
    /// How many frames there are to present.
    frames: usize,
    at: ReplayAt,
    tally: Tally,
}

pub struct ReplayView {
    pub ops: Seq<GpuJournalEntryView>,
    pub wires: Seq<WireView>,
    pub fed: Seq<usize>,
    pub blobs: Seq<u32>,
    pub memories: Seq<u32>,
    pub syncs: Seq<u32>,
    pub classics: Seq<u32>,
    pub frames: usize,
    pub at: ReplayAt,
    pub tally: TallyView,
}

impl View for Replay {
    type V = ReplayView;

    closed spec fn view(&self) -> ReplayView {
        ReplayView {
            ops: gpu_snapshot::ops_view(self.ops@),
            wires: wires_view(self.wires@),
            fed: self.fed@,
            blobs: self.blobs@,
            memories: self.memories@,
            syncs: self.syncs@,
            classics: self.classics@,
            frames: self.frames,
            at: self.at,
            tally: self.tally@,
        }
    }
}

/// The last place below `n` that holds `x`.
pub open spec fn last_of(s: Seq<u32>, x: u32, n: int) -> Option<int>
    decreases n,
{
    if n <= 0 {
        None
    } else if s[n - 1] == x {
        Some(n - 1)
    } else {
        last_of(s, x, n - 1)
    }
}

/// The first place at or after `from` that holds `x`.
pub open spec fn first_of(s: Seq<u32>, x: u32, from: int) -> Option<int>
    decreases s.len() - from,
{
    if from < 0 || from >= s.len() {
        None
    } else if s[from] == x {
        Some(from)
    } else {
        first_of(s, x, from + 1)
    }
}

/// The last wire journal of a context below place `n`: a later one takes an earlier one's place.
pub open spec fn last_wire(wires: Seq<WireView>, ctx_id: u32, n: int) -> Option<int>
    decreases n,
{
    if n <= 0 {
        None
    } else if wires[n - 1].ctx_id == ctx_id {
        Some(n - 1)
    } else {
        last_wire(wires, ctx_id, n - 1)
    }
}

/// The op attaches a resource only for the replay.
pub open spec fn only_attached(op: GpuJournalOpView) -> bool {
    op matches GpuJournalOpView::CtxAttachResource { detached: true, .. }
}

/// The first op at or after `from` that attaches a resource only for the replay.
pub open spec fn next_detach(ops: Seq<GpuJournalEntryView>, from: int) -> Option<int>
    decreases ops.len() - from,
{
    if from < 0 || from >= ops.len() {
        None
    } else if only_attached(ops[from].op) {
        Some(from)
    } else {
        next_detach(ops, from + 1)
    }
}

impl ReplayView {
    /// The wire journal of a context.
    pub open spec fn wire_of(self, ctx_id: u32) -> Option<int> {
        last_wire(self.wires, ctx_id, self.wires.len() as int)
    }

    /// A wire journal counts unless a later one of its context takes its place.
    pub open spec fn counts(self, w: int) -> bool {
        self.wire_of(self.wires[w].ctx_id) == Some(w)
    }

    /// Nothing of the wire journal that `fence` waits for is left to feed.
    pub open spec fn caught_up(self, w: int, fence: u64) -> bool {
        self.fed[w] >= self.wires[w].entries.len() || (fence != u64::MAX
            && self.wires[w].entries[self.fed[w] as int].seq > fence)
    }

    /// Every wire journal before `n` that counts was fed whole.
    pub open spec fn drained(self, n: int) -> bool {
        forall|w: int|
            0 <= w < n && w < self.wires.len() && #[trigger] self.counts(w) ==> self.fed[w]
                >= self.wires[w].entries.len()
    }

    /// The next op begins: a blob waits for its context's wire journal first. After the last op
    /// the wire journals are fed to their ends.
    pub open spec fn enter_op(self, i: int) -> ReplayAt {
        if i >= self.ops.len() {
            self.enter_wire(0)
        } else {
            match self.ops[i].op {
                GpuJournalOpView::CreateBlob { ctx_id, .. } => match self.wire_of(ctx_id) {
                    Some(w) => if self.caught_up(w, self.ops[i].vkr_seq) {
                        ReplayAt::AskSeq { op: i as usize, wire: w as usize }
                    } else {
                        ReplayAt::Wire { op: i as usize, wire: w as usize }
                    },
                    None => ReplayAt::Run { op: i as usize, rebased: None },
                },
                _ => ReplayAt::Run { op: i as usize, rebased: None },
            }
        }
    }

    /// The next wire journal is fed to its end.
    pub open spec fn enter_wire(self, w: int) -> ReplayAt
        decreases self.wires.len() - w,
    {
        if w < 0 || w >= self.wires.len() {
            self.enter_detach(0)
        } else if !self.counts(w) {
            self.enter_wire(w + 1)
        } else if self.fed[w] < self.wires[w].entries.len() {
            ReplayAt::Rest { wire: w as usize }
        } else {
            self.enter_classic(w)
        }
    }

    /// What only the GL renderer held of a context is uploaded.
    pub open spec fn enter_classic(self, w: int) -> ReplayAt {
        match first_of(self.classics, self.wires[w].ctx_id, 0) {
            Some(c) => ReplayAt::Classic { wire: w as usize, content: c as usize },
            None => self.enter_memory(w, 0),
        }
    }

    /// The next device memory of a context is written.
    pub open spec fn enter_memory(self, w: int, from: int) -> ReplayAt {
        match first_of(self.memories, self.wires[w].ctx_id, from) {
            Some(m) => ReplayAt::Memory { wire: w as usize, content: m as usize },
            None => match first_of(self.syncs, self.wires[w].ctx_id, 0) {
                Some(s) => ReplayAt::Sync { wire: w as usize, state: s as usize },
                None => ReplayAt::End { wire: w as usize },
            },
        }
    }

    /// The next resource that was attached only for the replay is detached.
    pub open spec fn enter_detach(self, from: int) -> ReplayAt {
        match next_detach(self.ops, from) {
            Some(i) => ReplayAt::Detach { op: i as usize },
            None => self.enter_frame(0),
        }
    }

    /// The next frame that a scanout showed is presented. After the last one the restore is over;
    /// it has succeeded if every op that had to was carried out, and presents nothing otherwise.
    pub open spec fn enter_frame(self, from: int) -> ReplayAt {
        if self.tally.op_failed != 0 {
            ReplayAt::Finished { ok: false }
        } else if 0 <= from < self.frames {
            ReplayAt::Frame { frame: from as usize }
        } else {
            ReplayAt::Finished { ok: true }
        }
    }

    /// The restore at another place.
    pub open spec fn to(self, at: ReplayAt) -> Self {
        ReplayView { at, ..self }
    }

    /// One more entry of a wire journal was fed; one that was dropped is counted.
    pub open spec fn fed_one(self, w: int, ok: bool) -> Self {
        let e = self.wires[w].entries[self.fed[w] as int];
        ReplayView {
            fed: self.fed.update(w, (self.fed[w] + 1) as usize),
            tally: if ok {
                self.tally
            } else {
                self.tally.wire_dropped(e)
            },
            ..self
        }
    }

    /// An op could not be carried out.
    pub open spec fn op_failed(self) -> Self {
        ReplayView {
            tally: TallyView { op_failed: more(self.tally.op_failed), ..self.tally },
            ..self
        }
    }

    /// A content was written, or not.
    pub open spec fn content_answered(self, ok: bool) -> Self {
        ReplayView {
            tally: if ok {
                self.tally
            } else {
                TallyView { content_failed: more(self.tally.content_failed), ..self.tally }
            },
            ..self
        }
    }

    /// An op was carried out, or not.
    pub open spec fn op_ran(self, i: int, rebased: Option<u64>, ok: bool) -> Self {
        let op = self.ops[i].op;
        if ok {
            let moved = match rebased {
                Some(seq) => ReplayView {
                    ops: self.ops.update(i, GpuJournalEntryView { vkr_seq: seq, ..self.ops[i] }),
                    ..self
                },
                None => self,
            };
            match op {
                GpuJournalOpView::CtxCreate { ctx_id, .. } if self.wire_of(ctx_id) is Some => {
                    moved.to(ReplayAt::Begin { op: i as usize })
                },
                GpuJournalOpView::CreateBlob { resource_id, .. } => match last_of(
                    self.blobs,
                    resource_id,
                    self.blobs.len() as int,
                ) {
                    Some(c) => moved.to(ReplayAt::Content { op: i as usize, content: c as usize }),
                    None => moved.to(moved.enter_op(i + 1)),
                },
                _ => moved.to(moved.enter_op(i + 1)),
            }
        } else {
            match severity_of(op) {
                Severity::Fatal => self.to(ReplayAt::Finished { ok: false }),
                Severity::Counted => self.op_failed().to(self.op_failed().enter_op(i + 1)),
                Severity::Cosmetic => self.to(self.enter_op(i + 1)),
            }
        }
    }

    /// The restore after an answer.
    pub open spec fn after(self, event: ReplayEvent) -> Self {
        let ok = event == ReplayEvent::Done(true);
        match self.at {
            ReplayAt::Wire { op, wire } => {
                let fed = self.fed_one(wire as int, ok);
                fed.to(fed.enter_op(op as int))
            },
            ReplayAt::AskSeq { op, wire } => self.to(
                ReplayAt::Run {
                    op,
                    rebased: Some(
                        match event {
                            ReplayEvent::Number(n) => n,
                            _ => 0,
                        },
                    ),
                },
            ),
            ReplayAt::Run { op, rebased } => self.op_ran(op as int, rebased, ok),
            ReplayAt::Begin { op } => if ok {
                self.to(self.enter_op(op + 1))
            } else {
                self.to(ReplayAt::Finished { ok: false })
            },
            ReplayAt::Content { op, .. } => self.to(self.enter_op(op + 1)),
            ReplayAt::Rest { wire } => {
                let fed = self.fed_one(wire as int, ok);
                fed.to(fed.enter_wire(wire as int))
            },
            ReplayAt::Classic { wire, .. } => {
                let tallied = self.content_answered(ok);
                tallied.to(tallied.enter_memory(wire as int, 0))
            },
            ReplayAt::Memory { wire, content } => {
                let tallied = self.content_answered(ok);
                tallied.to(tallied.enter_memory(wire as int, content + 1))
            },
            ReplayAt::Sync { wire, .. } => self.to(ReplayAt::End { wire }),
            ReplayAt::End { wire } => if ok {
                self.to(self.enter_wire(wire + 1))
            } else {
                self.op_failed().to(self.op_failed().enter_wire(wire + 1))
            },
            ReplayAt::Detach { op } => self.to(self.enter_detach(op + 1)),
            ReplayAt::Frame { frame } => self.to(self.enter_frame(frame + 1)),
            ReplayAt::Finished { .. } => self,
        }
    }

    /// What the restore asks for now.
    pub open spec fn action(self) -> ReplayAction {
        match self.at {
            ReplayAt::Wire { wire, .. } => self.feed_action(wire as int),
            ReplayAt::AskSeq { wire, .. } => ReplayAction::AskSeq {
                ctx_id: self.wires[wire as int].ctx_id,
            },
            ReplayAt::Run { op, .. } => ReplayAction::RunOp { op },
            ReplayAt::Begin { op } => ReplayAction::BeginContext {
                ctx_id: match self.ops[op as int].op {
                    GpuJournalOpView::CtxCreate { ctx_id, .. } => ctx_id,
                    _ => 0,
                },
            },
            ReplayAt::Content { content, .. } => ReplayAction::WriteBlob {
                resource_id: self.blobs[content as int],
                content,
            },
            ReplayAt::Rest { wire } => self.feed_action(wire as int),
            ReplayAt::Classic { content, .. } => ReplayAction::UploadClassic { content },
            ReplayAt::Memory { content, .. } => ReplayAction::WriteMemory { content },
            ReplayAt::Sync { state, .. } => ReplayAction::RestoreSync { state },
            ReplayAt::End { wire } => ReplayAction::EndContext {
                ctx_id: self.wires[wire as int].ctx_id,
            },
            ReplayAt::Detach { op } => match self.ops[op as int].op {
                GpuJournalOpView::CtxAttachResource { ctx_id, resource_id, .. } => {
                    ReplayAction::Detach { ctx_id, resource_id }
                },
                _ => ReplayAction::Detach { ctx_id: 0, resource_id: 0 },
            },
            ReplayAt::Frame { frame } => ReplayAction::PresentFrame { frame },
            ReplayAt::Finished { ok } => ReplayAction::Finish { ok },
        }
    }

    pub open spec fn feed_action(self, w: int) -> ReplayAction {
        ReplayAction::Feed {
            wire: w as usize,
            entry: self.fed[w],
            ring: self.wires[w].entries[self.fed[w] as int].ring(),
        }
    }

    /// Every place that the restore stands at is there, and what it waited for was fed: a blob is
    /// made behind its context's wire journal, and rings start behind the whole of theirs.
    pub open spec fn wf(self) -> bool {
        &&& self.ops.len() < usize::MAX
        &&& self.wires.len() < usize::MAX
        &&& self.memories.len() < usize::MAX
        &&& self.fed.len() == self.wires.len()
        &&& self.tally.drops.len() == 9
        &&& self.placed()
    }

    pub open spec fn placed(self) -> bool {
        match self.at {
            ReplayAt::Wire { op, wire } => {
                &&& op < self.ops.len()
                &&& wire < self.wires.len()
                &&& !self.caught_up(wire as int, self.ops[op as int].vkr_seq)
            },
            ReplayAt::AskSeq { op, wire } => {
                &&& op < self.ops.len()
                &&& wire < self.wires.len()
                &&& self.caught_up(wire as int, self.ops[op as int].vkr_seq)
                &&& self.ops[op as int].op matches GpuJournalOpView::CreateBlob { ctx_id, .. }
                &&& self.wire_of(ctx_id) == Some(wire as int)
            },
            ReplayAt::Run { op, .. } => {
                &&& op < self.ops.len()
                &&& self.ops[op as int].op matches GpuJournalOpView::CreateBlob { ctx_id, .. }
                    ==> match self.wire_of(ctx_id) {
                    Some(w) => self.caught_up(w, self.ops[op as int].vkr_seq),
                    None => true,
                }
            },
            ReplayAt::Begin { op } => op < self.ops.len(),
            ReplayAt::Content { op, content } => op < self.ops.len() && content < self.blobs.len(),
            ReplayAt::Rest { wire } => {
                &&& wire < self.wires.len()
                &&& self.counts(wire as int)
                &&& self.fed[wire as int] < self.wires[wire as int].entries.len()
                &&& self.drained(wire as int)
            },
            ReplayAt::Classic { wire, content } => {
                &&& wire < self.wires.len()
                &&& content < self.classics.len()
                &&& self.counts(wire as int)
                &&& self.drained(wire + 1)
            },
            ReplayAt::Memory { wire, content } => {
                &&& wire < self.wires.len()
                &&& content < self.memories.len()
                &&& self.counts(wire as int)
                &&& self.drained(wire + 1)
            },
            ReplayAt::Sync { wire, state } => {
                &&& wire < self.wires.len()
                &&& state < self.syncs.len()
                &&& self.counts(wire as int)
                &&& self.drained(wire + 1)
            },
            ReplayAt::End { wire } => {
                &&& wire < self.wires.len()
                &&& self.counts(wire as int)
                &&& self.drained(wire + 1)
            },
            ReplayAt::Detach { op } => op < self.ops.len() && self.drained(
                self.wires.len() as int,
            ),
            ReplayAt::Frame { frame } => frame < self.frames && self.drained(
                self.wires.len() as int,
            ) && self.tally.op_failed == 0,
            ReplayAt::Finished { ok } => ok ==> self.drained(self.wires.len() as int)
                && self.tally.op_failed == 0,
        }
    }
}

fn find_last(s: &Vec<u32>, x: u32) -> (r: Option<usize>)
    ensures
        match r {
            Some(i) => last_of(s@, x, s@.len() as int) == Some(i as int) && i < s@.len(),
            None => last_of(s@, x, s@.len() as int) is None,
        },
{
    let mut n: usize = s.len();
    while n > 0
        invariant
            n <= s@.len(),
            last_of(s@, x, s@.len() as int) == last_of(s@, x, n as int),
        decreases n,
    {
        if s[n - 1] == x {
            return Some(n - 1);
        }
        n = n - 1;
    }
    None
}

fn find_first(s: &Vec<u32>, x: u32, from: usize) -> (r: Option<usize>)
    ensures
        match r {
            Some(i) => first_of(s@, x, from as int) == Some(i as int) && i < s@.len(),
            None => first_of(s@, x, from as int) is None,
        },
{
    let mut i: usize = from;
    while i < s.len()
        invariant
            first_of(s@, x, from as int) == first_of(s@, x, i as int),
        decreases s@.len() - i,
    {
        if s[i] == x {
            return Some(i);
        }
        i = i + 1;
    }
    None
}

/// The tags of tagged byte strings.
pub open spec fn tags_of(v: Seq<(u32, Seq<u8>)>) -> Seq<u32> {
    v.map_values(|e: (u32, Seq<u8>)| e.0)
}

pub open spec fn memory_tags_of(v: Seq<(u32, u64, Seq<u8>)>) -> Seq<u32> {
    v.map_values(|e: (u32, u64, Seq<u8>)| e.0)
}

fn tags(v: &Vec<(u32, Vec<u8>)>) -> (r: Vec<u32>)
    ensures
        r@ == tags_of(gpu_snapshot::tagged_view(v@)),
{
    let mut r: Vec<u32> = Vec::new();
    let mut i: usize = 0;
    while i < v.len()
        invariant
            i <= v@.len(),
            r@ == tags_of(gpu_snapshot::tagged_view(v@)).take(i as int),
        decreases v@.len() - i,
    {
        r.push(v[i].0);
        i = i + 1;
        assert(r@ =~= tags_of(gpu_snapshot::tagged_view(v@)).take(i as int));
    }
    assert(r@ =~= tags_of(gpu_snapshot::tagged_view(v@)));
    r
}

fn memory_tags(v: &Vec<(u32, u64, Vec<u8>)>) -> (r: Vec<u32>)
    ensures
        r@ == memory_tags_of(gpu_snapshot::memory_view(v@)),
{
    let mut r: Vec<u32> = Vec::new();
    let mut i: usize = 0;
    while i < v.len()
        invariant
            i <= v@.len(),
            r@ == memory_tags_of(gpu_snapshot::memory_view(v@)).take(i as int),
        decreases v@.len() - i,
    {
        r.push(v[i].0);
        i = i + 1;
        assert(r@ =~= memory_tags_of(gpu_snapshot::memory_view(v@)).take(i as int));
    }
    assert(r@ =~= memory_tags_of(gpu_snapshot::memory_view(v@)));
    r
}

/// Starts the restore of a snapshot: the payload's ops are taken, its contents stay to be written
/// when the restore asks for them.
pub fn restore_gpu_payload(payload: &mut GpuSnapshotPayload, wires: Vec<WireJournal>) -> (r: Replay)
    requires
        old(payload)@.ops.len() < usize::MAX,
        old(payload)@.memory_contents.len() < usize::MAX,
        wires@.len() < usize::MAX,
    ensures
        final(payload)@ == (GpuSnapshotPayloadView { ops: Seq::empty(), ..old(payload)@ }),
        r@.wf(),
        ({
            let p = old(payload)@;
            let start = ReplayView {
                ops: p.ops,
                wires: wires_view(wires@),
                fed: Seq::new(wires@.len(), |i: int| 0usize),
                blobs: tags_of(p.blob_contents),
                memories: memory_tags_of(p.memory_contents),
                syncs: tags_of(p.sync_states),
                classics: tags_of(p.classic_contents),
                frames: p.scanout_frames.len() as usize,
                at: ReplayAt::Finished { ok: false },
                tally: TallyView {
                    wire_failed: 0,
                    op_failed: 0,
                    content_failed: 0,
                    drops: Seq::new(9, |i: int| 0u32),
                },
            };
            r@ == start.to(start.enter_op(0))
        }),
{
    let blobs: Vec<u32> = tags(&payload.blob_contents);
    let memories: Vec<u32> = memory_tags(&payload.memory_contents);
    let syncs: Vec<u32> = tags(&payload.sync_states);
    let classics: Vec<u32> = tags(&payload.classic_contents);
    let frames: usize = payload.scanout_frames.len();
    let mut ops: Vec<GpuJournalEntry> = Vec::new();
    std::mem::swap(&mut ops, &mut payload.ops);
    assert(payload@.ops =~= Seq::empty());
    assert(gpu_snapshot::ops_view(ops@) == old(payload)@.ops);
    Replay::new(ops, wires, blobs, memories, syncs, classics, frames)
}

impl Replay {
    /// A restore of these ops, before its first step. `wires` are the contexts' wire journals,
    /// `blobs` the resources whose contents there are, `memories`, `syncs` and `classics` the
    /// contexts of the device memories' contents, of the sync states and of what only the GL
    /// renderer held, and `frames` the number of frames to present.
    pub fn new(
        ops: Vec<GpuJournalEntry>,
        wires: Vec<WireJournal>,
        blobs: Vec<u32>,
        memories: Vec<u32>,
        syncs: Vec<u32>,
        classics: Vec<u32>,
        frames: usize,
    ) -> (r: Self)
        requires
            ops@.len() < usize::MAX,
            wires@.len() < usize::MAX,
            memories@.len() < usize::MAX,
        ensures
            ({
                let start = ReplayView {
                    ops: gpu_snapshot::ops_view(ops@),
                    wires: wires_view(wires@),
                    fed: Seq::new(wires@.len(), |i: int| 0usize),
                    blobs: blobs@,
                    memories: memories@,
                    syncs: syncs@,
                    classics: classics@,
                    frames,
                    at: ReplayAt::Finished { ok: false },
                    tally: TallyView {
                        wire_failed: 0,
                        op_failed: 0,
                        content_failed: 0,
                        drops: Seq::new(9, |i: int| 0u32),
                    },
                };
                r@ == start.to(start.enter_op(0))
            }),
            r@.wf(),
    {
        let n: usize = wires.len();
        let fed: Vec<usize> = vec![0usize; n];
        let drops: Vec<u32> = vec![0u32; 9];
        assert(fed@ =~= Seq::new(wires@.len(), |i: int| 0usize));
        assert(drops@ =~= Seq::new(9, |i: int| 0u32));
        let mut r = Replay {
            ops,
            wires,
            fed,
            blobs,
            memories,
            syncs,
            classics,
            frames,
            at: ReplayAt::Finished { ok: false },
            tally: Tally { wire_failed: 0, op_failed: 0, content_failed: 0, drops },
        };
        r.at = r.enter_op(0);
        r
    }

    fn wire_of(&self, ctx_id: u32) -> (r: Option<usize>)
        ensures
            match r {
                Some(w) => self@.wire_of(ctx_id) == Some(w as int) && w < self@.wires.len(),
                None => self@.wire_of(ctx_id) is None,
            },
    {
        let mut n: usize = self.wires.len();
        while n > 0
            invariant
                n <= self.wires@.len(),
                self@.wires.len() == self.wires@.len(),
                self@.wire_of(ctx_id) == last_wire(self@.wires, ctx_id, n as int),
            decreases n,
        {
            assert(self@.wires[n - 1] == self.wires@[n - 1]@);
            if self.wires[n - 1].ctx_id == ctx_id {
                return Some(n - 1);
            }
            n = n - 1;
        }
        None
    }

    fn caught_up(&self, w: usize, fence: u64) -> (r: bool)
        requires
            w < self@.wires.len(),
            self@.fed.len() == self@.wires.len(),
        ensures
            r == self@.caught_up(w as int, fence),
    {
        assert(self@.wires[w as int] == self.wires@[w as int]@);
        let n: usize = self.fed[w];
        n >= self.wires[w].entries.len() || (fence != u64::MAX && self.wires[w].entries[n].seq
            > fence)
    }

    fn enter_op(&self, i: usize) -> (at: ReplayAt)
        requires
            i <= self@.ops.len(),
            self@.ops.len() < usize::MAX,
            self@.wires.len() < usize::MAX,
            self@.fed.len() == self@.wires.len(),
        ensures
            at == self@.enter_op(i as int),
            self@.to(at).placed(),
    {
        assert(self@.ops.len() == self.ops@.len());
        if i >= self.ops.len() {
            return self.enter_wire(0);
        }
        assert(self@.ops[i as int] == self.ops@[i as int]@);
        match &self.ops[i].op {
            GpuJournalOp::CreateBlob { ctx_id, .. } => match self.wire_of(*ctx_id) {
                Some(w) => if self.caught_up(w, self.ops[i].vkr_seq) {
                    ReplayAt::AskSeq { op: i, wire: w }
                } else {
                    ReplayAt::Wire { op: i, wire: w }
                },
                None => ReplayAt::Run { op: i, rebased: None },
            },
            _ => ReplayAt::Run { op: i, rebased: None },
        }
    }

    fn enter_wire(&self, from: usize) -> (at: ReplayAt)
        requires
            self@.ops.len() < usize::MAX,
            self@.wires.len() < usize::MAX,
            self@.fed.len() == self@.wires.len(),
            from <= self@.wires.len(),
            self@.drained(from as int),
        ensures
            at == self@.enter_wire(from as int),
            self@.to(at).placed(),
    {
        let mut w: usize = from;
        while w < self.wires.len()
            invariant
                w <= self.wires@.len(),
                self@.wires.len() == self.wires@.len(),
                self@.ops.len() < usize::MAX,
                self@.wires.len() < usize::MAX,
                self@.fed.len() == self@.wires.len(),
                self@.drained(w as int),
                self@.enter_wire(from as int) == self@.enter_wire(w as int),
            decreases self.wires@.len() - w,
        {
            assert(self@.wires[w as int] == self.wires@[w as int]@);
            let counts: bool = match self.wire_of(self.wires[w].ctx_id) {
                Some(x) => x == w,
                None => false,
            };
            assert(counts == self@.counts(w as int));
            if counts {
                if self.fed[w] < self.wires[w].entries.len() {
                    let at = ReplayAt::Rest { wire: w };
                    proof {
                        lemma_to_keeps_drained(self@, at, w as int);
                        assert(self@.to(at).counts(w as int));
                    }
                    return at;
                }
                assert(self@.drained(w + 1));
                return self.enter_classic(w);
            }
            assert(self@.drained(w + 1));
            w = w + 1;
        }
        self.enter_detach(0)
    }

    fn enter_classic(&self, w: usize) -> (at: ReplayAt)
        requires
            w < self@.wires.len(),
            self@.counts(w as int),
            self@.drained(w + 1),
        ensures
            at == self@.enter_classic(w as int),
            self@.to(at).placed(),
    {
        assert(self@.wires[w as int] == self.wires@[w as int]@);
        match find_first(&self.classics, self.wires[w].ctx_id, 0) {
            Some(c) => {
                let at = ReplayAt::Classic { wire: w, content: c };
                proof {
                    lemma_to_keeps_drained(self@, at, w + 1);
                    assert(self@.to(at).counts(w as int));
                }
                at
            },
            None => self.enter_memory(w, 0),
        }
    }

    fn enter_memory(&self, w: usize, from: usize) -> (at: ReplayAt)
        requires
            w < self@.wires.len(),
            self@.counts(w as int),
            self@.drained(w + 1),
        ensures
            at == self@.enter_memory(w as int, from as int),
            self@.to(at).placed(),
    {
        assert(self@.wires[w as int] == self.wires@[w as int]@);
        let ctx_id: u32 = self.wires[w].ctx_id;
        let at = match find_first(&self.memories, ctx_id, from) {
            Some(m) => ReplayAt::Memory { wire: w, content: m },
            None => match find_first(&self.syncs, ctx_id, 0) {
                Some(s) => ReplayAt::Sync { wire: w, state: s },
                None => ReplayAt::End { wire: w },
            },
        };
        assert(self@.to(at).drained(w + 1)) by {
            lemma_to_keeps_drained(self@, at, w + 1);
        }
        at
    }

    fn enter_detach(&self, from: usize) -> (at: ReplayAt)
        requires
            self@.drained(self@.wires.len() as int),
            from <= self@.ops.len(),
        ensures
            at == self@.enter_detach(from as int),
            self@.to(at).placed(),
    {
        let mut i: usize = from;
        while i < self.ops.len()
            invariant
                i <= self.ops@.len(),
                self@.ops.len() == self.ops@.len(),
                self@.drained(self@.wires.len() as int),
                next_detach(self@.ops, from as int) == next_detach(self@.ops, i as int),
            decreases self.ops@.len() - i,
        {
            assert(self@.ops[i as int] == self.ops@[i as int]@);
            if let GpuJournalOp::CtxAttachResource { detached, .. } = &self.ops[i].op {
                if *detached {
                    proof {
                        lemma_to_keeps_drained(
                            self@,
                            ReplayAt::Detach { op: i },
                            self@.wires.len() as int,
                        );
                    }
                    return ReplayAt::Detach { op: i };
                }
            }
            i = i + 1;
        }
        self.enter_frame(0)
    }

    fn enter_frame(&self, from: usize) -> (at: ReplayAt)
        requires
            self@.drained(self@.wires.len() as int),
        ensures
            at == self@.enter_frame(from as int),
            self@.to(at).placed(),
    {
        let at = if self.tally.op_failed != 0 {
            ReplayAt::Finished { ok: false }
        } else if from < self.frames {
            ReplayAt::Frame { frame: from }
        } else {
            ReplayAt::Finished { ok: true }
        };
        proof {
            lemma_to_keeps_drained(self@, at, self@.wires.len() as int);
        }
        at
    }
}

proof fn lemma_to_keeps_drained(v: ReplayView, at: ReplayAt, n: int)
    requires
        v.drained(n),
    ensures
        v.to(at).drained(n),
{
    assert forall|w: int|
        0 <= w < n && w < v.to(at).wires.len() && #[trigger] v.to(at).counts(w) implies v.to(
        at,
    ).fed[w] >= v.to(at).wires[w].entries.len() by {
        assert(v.counts(w));
    }
}

impl Replay {
    /// What the restore asks for now.
    pub fn action(&self) -> (r: ReplayAction)
        requires
            self@.wf(),
        ensures
            r == self@.action(),
    {
        match self.at {
            ReplayAt::Wire { wire, .. } => self.feed_action(wire),
            ReplayAt::AskSeq { wire, .. } => {
                assert(self@.wires[wire as int] == self.wires@[wire as int]@);
                ReplayAction::AskSeq { ctx_id: self.wires[wire].ctx_id }
            },
            ReplayAt::Run { op, .. } => ReplayAction::RunOp { op },
            ReplayAt::Begin { op } => {
                assert(self@.ops[op as int] == self.ops@[op as int]@);
                let ctx_id: u32 = match &self.ops[op].op {
                    GpuJournalOp::CtxCreate { ctx_id, .. } => *ctx_id,
                    _ => 0,
                };
                ReplayAction::BeginContext { ctx_id }
            },
            ReplayAt::Content { content, .. } => ReplayAction::WriteBlob {
                resource_id: self.blobs[content],
                content,
            },
            ReplayAt::Rest { wire } => self.feed_action(wire),
            ReplayAt::Classic { content, .. } => ReplayAction::UploadClassic { content },
            ReplayAt::Memory { content, .. } => ReplayAction::WriteMemory { content },
            ReplayAt::Sync { state, .. } => ReplayAction::RestoreSync { state },
            ReplayAt::End { wire } => {
                assert(self@.wires[wire as int] == self.wires@[wire as int]@);
                ReplayAction::EndContext { ctx_id: self.wires[wire].ctx_id }
            },
            ReplayAt::Detach { op } => {
                assert(self@.ops[op as int] == self.ops@[op as int]@);
                match &self.ops[op].op {
                    GpuJournalOp::CtxAttachResource {
                        ctx_id,
                        resource_id,
                        ..
                    } => ReplayAction::Detach { ctx_id: *ctx_id, resource_id: *resource_id },
                    _ => ReplayAction::Detach { ctx_id: 0, resource_id: 0 },
                }
            },
            ReplayAt::Frame { frame } => ReplayAction::PresentFrame { frame },
            ReplayAt::Finished { ok } => ReplayAction::Finish { ok },
        }
    }

    fn feed_action(&self, w: usize) -> (r: ReplayAction)
        requires
            w < self@.wires.len(),
            self@.fed.len() == self@.wires.len(),
            self@.fed[w as int] < self@.wires[w as int].entries.len(),
        ensures
            r == self@.feed_action(w as int),
    {
        assert(self@.wires[w as int] == self.wires@[w as int]@);
        let entry: usize = self.fed[w];
        let e: WireEntry = self.wires[w].entries[entry];
        let ring: Option<u64> = if e.klass == VKR_KLASS_RING_STREAM && e.ring_key != 0 {
            Some(e.ring_key)
        } else {
            None
        };
        ReplayAction::Feed { wire: w, entry, ring }
    }

    /// One more entry of a wire journal was fed.
    fn feed_one(&mut self, w: usize, ok: bool)
        requires
            w < old(self)@.wires.len(),
            old(self)@.fed.len() == old(self)@.wires.len(),
            old(self)@.fed[w as int] < old(self)@.wires[w as int].entries.len(),
            old(self)@.tally.drops.len() == 9,
        ensures
            final(self)@ == old(self)@.fed_one(w as int, ok),
    {
        assert(self@.wires[w as int] == self.wires@[w as int]@);
        let n: usize = self.fed[w];
        let len: usize = self.wires[w].entries.len();
        let e: WireEntry = self.wires[w].entries[n];
        assert(n < len);
        self.fed.set(w, n + 1);
        if !ok {
            let i: usize = if e.klass < 8 {
                e.klass as usize
            } else {
                8
            };
            self.tally.wire_failed = count(self.tally.wire_failed);
            let more: u32 = count(self.tally.drops[i]);
            self.tally.drops.set(i, more);
        }
    }

    /// An op was carried out, or not.
    fn op_ran(&mut self, i: usize, rebased: Option<u64>, ok: bool)
        requires
            old(self)@.wf(),
            i < old(self)@.ops.len(),
        ensures
            final(self)@ == old(self)@.op_ran(i as int, rebased, ok),
            final(self)@.wf(),
    {
        let ghost before = self@;
        assert(self@.ops[i as int] == self.ops@[i as int]@);
        if ok {
            if let Some(seq) = rebased {
                self.ops[i].vkr_seq = seq;
                assert(self@.ops =~= before.ops.update(
                    i as int,
                    GpuJournalEntryView { vkr_seq: seq, ..before.ops[i as int] },
                ));
            }
            let ghost moved = self@;
            assert(moved.wires == before.wires);
            assert(self@.ops[i as int] == self.ops@[i as int]@);
            self.at = match &self.ops[i].op {
                GpuJournalOp::CtxCreate { ctx_id, .. } => match self.wire_of(*ctx_id) {
                    Some(_) => ReplayAt::Begin { op: i },
                    None => self.enter_op(i + 1),
                },
                GpuJournalOp::CreateBlob { resource_id, .. } => match find_last(
                    &self.blobs,
                    *resource_id,
                ) {
                    Some(c) => ReplayAt::Content { op: i, content: c },
                    None => self.enter_op(i + 1),
                },
                _ => self.enter_op(i + 1),
            };
        } else {
            match op_severity(&self.ops[i].op) {
                Severity::Fatal => {
                    self.at = ReplayAt::Finished { ok: false };
                },
                Severity::Counted => {
                    self.tally.op_failed = count(self.tally.op_failed);
                    self.at = self.enter_op(i + 1);
                },
                Severity::Cosmetic => {
                    self.at = self.enter_op(i + 1);
                },
            }
        }
    }

    /// Goes on with the answer to the action asked for.
    pub fn advance(&mut self, event: ReplayEvent)
        requires
            old(self)@.wf(),
        ensures
            final(self)@ == old(self)@.after(event),
            final(self)@.wf(),
    {
        let ok: bool = match event {
            ReplayEvent::Done(ok) => ok,
            ReplayEvent::Number(_) => false,
        };
        match self.at {
            ReplayAt::Wire { op, wire } => {
                self.feed_one(wire, ok);
                self.at = self.enter_op(op);
            },
            ReplayAt::AskSeq { op, .. } => {
                let n: u64 = match event {
                    ReplayEvent::Number(n) => n,
                    ReplayEvent::Done(_) => 0,
                };
                self.at = ReplayAt::Run { op, rebased: Some(n) };
            },
            ReplayAt::Run { op, rebased } => {
                self.op_ran(op, rebased, ok);
            },
            ReplayAt::Begin { op } => {
                self.at = if ok {
                    self.enter_op(op + 1)
                } else {
                    ReplayAt::Finished { ok: false }
                };
            },
            ReplayAt::Content { op, .. } => {
                self.at = self.enter_op(op + 1);
            },
            ReplayAt::Rest { wire } => {
                let ghost before = self@;
                self.feed_one(wire, ok);
                proof {
                    lemma_fed_keeps_drained(before, wire as int, ok);
                }
                self.at = self.enter_wire(wire);
            },
            ReplayAt::Classic { wire, .. } => {
                if !ok {
                    self.tally.content_failed = count(self.tally.content_failed);
                }
                proof {
                    lemma_same_drained(old(self)@, self@, wire + 1);
                }
                self.at = self.enter_memory(wire, 0);
            },
            ReplayAt::Memory { wire, content } => {
                if !ok {
                    self.tally.content_failed = count(self.tally.content_failed);
                }
                proof {
                    lemma_same_drained(old(self)@, self@, wire + 1);
                }
                self.at = self.enter_memory(wire, content + 1);
            },
            ReplayAt::Sync { wire, .. } => {
                proof {
                    lemma_to_keeps_drained(self@, ReplayAt::End { wire }, wire + 1);
                }
                self.at = ReplayAt::End { wire };
            },
            ReplayAt::End { wire } => {
                if !ok {
                    self.tally.op_failed = count(self.tally.op_failed);
                }
                proof {
                    lemma_same_drained(old(self)@, self@, wire + 1);
                }
                self.at = self.enter_wire(wire + 1);
            },
            ReplayAt::Detach { op } => {
                self.at = self.enter_detach(op + 1);
            },
            ReplayAt::Frame { frame } => {
                self.at = self.enter_frame(frame + 1);
            },
            ReplayAt::Finished { .. } => {},
        }
    }

    /// What went wrong.
    pub fn tally(&self) -> (r: &Tally)
        ensures
            r@ == self@.tally,
    {
        &self.tally
    }

    /// The ops, their places in the wire journals moved to the new ones.
    pub fn ops(&self) -> (r: &Vec<GpuJournalEntry>)
        ensures
            gpu_snapshot::ops_view(r@) == self@.ops,
    {
        &self.ops
    }

    /// The ops, their places in the wire journals moved to the new ones, for the journal that goes
    /// on from here.
    pub fn into_ops(self) -> (r: Vec<GpuJournalEntry>)
        ensures
            gpu_snapshot::ops_view(r@) == self@.ops,
    {
        self.ops
    }
}

proof fn lemma_same_drained(a: ReplayView, b: ReplayView, n: int)
    requires
        a.drained(n),
        a.wires == b.wires,
        a.fed == b.fed,
    ensures
        b.drained(n),
{
    assert forall|w: int|
        0 <= w < n && w < b.wires.len() && #[trigger] b.counts(w) implies b.fed[w]
        >= b.wires[w].entries.len() by {
        assert(a.counts(w));
    }
}

proof fn lemma_fed_keeps_drained(v: ReplayView, w: int, ok: bool)
    requires
        v.drained(w),
        0 <= w < v.wires.len(),
        v.fed.len() == v.wires.len(),
    ensures
        v.fed_one(w, ok).drained(w),
{
    let b = v.fed_one(w, ok);
    assert forall|x: int|
        0 <= x < w && x < b.wires.len() && #[trigger] b.counts(x) implies b.fed[x]
        >= b.wires[x].entries.len() by {
        assert(v.counts(x));
    }
}

/// A blob is made only when nothing that its context's wire journal recorded before it is left to
/// feed.
pub proof fn law_blob_waits_for_its_wire(v: ReplayView, op: usize, w: int, k: int)
    requires
        v.wf(),
        v.action() == (ReplayAction::RunOp { op }),
        v.ops[op as int].op matches GpuJournalOpView::CreateBlob { ctx_id, .. } && v.wire_of(ctx_id)
            == Some(w),
        v.fed[w] <= k < v.wires[w].entries.len(),
        forall|a: int, b: int|
            0 <= a < b < v.wires[w].entries.len() ==> (#[trigger] v.wires[w].entries[a]).seq < (
            #[trigger] v.wires[w].entries[b]).seq,
    ensures
        v.wires[w].entries[k].seq > v.ops[op as int].vkr_seq,
{
    if v.fed[w] < k {
        assert(v.wires[w].entries[v.fed[w] as int].seq < v.wires[w].entries[k].seq);
    }
}

/// A restore that succeeds has fed every wire journal whole and carried out every op that the
/// guest would miss.
pub proof fn law_success_is_complete(v: ReplayView, w: int)
    requires
        v.wf(),
        v.action() == (ReplayAction::Finish { ok: true }),
        0 <= w < v.wires.len(),
        v.counts(w),
    ensures
        v.fed[w] >= v.wires[w].entries.len(),
        v.tally.op_failed == 0,
{
}

/// Rings start only behind the whole of their wire journal.
pub proof fn law_rings_start_last(v: ReplayView, w: usize)
    requires
        v.wf(),
        v.at == (ReplayAt::End { wire: w }),
    ensures
        v.fed[w as int] >= v.wires[w as int].entries.len(),
{
}

/// What only the GL renderer held of a context is uploaded behind the whole of its wire journal.
pub proof fn law_classic_contents_follow_the_wire(v: ReplayView, w: usize, c: usize)
    requires
        v.wf(),
        v.at == (ReplayAt::Classic { wire: w, content: c }),
    ensures
        v.fed[w as int] >= v.wires[w as int].entries.len(),
{
}

/// A frame is presented again only when the session is there: every wire journal was fed whole,
/// and every op that the guest would miss was carried out. From then on nothing but frames
/// follows, so none is painted over.
pub proof fn law_frames_come_last(v: ReplayView, frame: usize, w: int, event: ReplayEvent)
    requires
        v.wf(),
        v.action() == (ReplayAction::PresentFrame { frame }),
        0 <= w < v.wires.len(),
        v.counts(w),
    ensures
        v.fed[w] >= v.wires[w].entries.len(),
        v.tally.op_failed == 0,
        v.after(event).action() == if frame + 1 < v.frames {
            ReplayAction::PresentFrame { frame: (frame + 1) as usize }
        } else {
            ReplayAction::Finish { ok: true }
        },
{
}

/// An op that was missed is never forgotten: once one is counted, the restore cannot succeed.
pub proof fn law_failures_stay(v: ReplayView, event: ReplayEvent)
    requires
        v.wf(),
        v.tally.op_failed > 0,
    ensures
        v.after(event).tally.op_failed > 0,
        v.after(event).at != (ReplayAt::Finished { ok: true }),
{
    lemma_enter_fails(v, event);
}

proof fn lemma_enter_fails(v: ReplayView, event: ReplayEvent)
    requires
        v.wf(),
        v.tally.op_failed > 0,
    ensures
        v.after(event).tally.op_failed > 0,
        v.after(event).at != (ReplayAt::Finished { ok: true }),
{
    assert forall|u: ReplayView, w: int|
        u.tally.op_failed > 0 implies #[trigger] u.enter_wire(w) != (ReplayAt::Finished {
        ok: true,
    }) by {
        lemma_enter_wire_fails(u, w);
    }
}

proof fn lemma_enter_wire_fails(u: ReplayView, w: int)
    requires
        u.tally.op_failed > 0,
    ensures
        u.enter_wire(w) != (ReplayAt::Finished { ok: true }),
    decreases u.wires.len() - w,
{
    if 0 <= w < u.wires.len() {
        lemma_enter_wire_fails(u, w + 1);
    }
}

} // verus!
