//! Counted GPU health probes: stale-context and unknown-resource commands, fences requested and
//! retired, and the size of the journal.
use crate::gpu::protocol::{GpuResponse, RendererError};
use vstd::prelude::*;

verus! {

#[derive(Clone, Copy, PartialEq, Eq, Structural, Debug)]
pub struct GpuTraceStats {
    /// Submissions seen.
    pub submits: u64,
    /// Commands refused because the renderer does not know the context.
    pub unknown_ctx: u64,
    /// Commands refused because the renderer does not know the resource.
    pub unknown_resource: u64,
    /// Commands refused for any other reason.
    pub errors_other: u64,
    /// Fences the guest asked for.
    pub fences_requested: u64,
    /// Fence descriptors given back to the guest.
    pub fences_retired: u64,
    /// A dump of the renderer's state is wanted.
    pub dump_requested: bool,
    /// The journal's entries, and how many it recorded and pruned.
    pub journal_live: u64,
    pub journal_recorded: u64,
    pub journal_pruned: u64,
}

impl Default for GpuTraceStats {
    fn default() -> (r: Self)
        ensures
            r == Self::zero(),
    {
        GpuTraceStats {
            submits: 0,
            unknown_ctx: 0,
            unknown_resource: 0,
            errors_other: 0,
            fences_requested: 0,
            fences_retired: 0,
            dump_requested: false,
            journal_live: 0,
            journal_recorded: 0,
            journal_pruned: 0,
        }
    }
}

/// What a refused command says about the guest and the renderer.
#[derive(Clone, Copy, PartialEq, Eq, Structural, Debug)]
pub enum ErrorClass {
    UnknownContext,
    UnknownResource,
    Other,
}

/// The class of a refusal.
pub open spec fn error_class(resp: GpuResponse) -> ErrorClass {
    match resp {
        GpuResponse::ErrInvalidContextId => ErrorClass::UnknownContext,
        GpuResponse::ErrRutabaga(RendererError::InvalidContextId) => ErrorClass::UnknownContext,
        GpuResponse::ErrInvalidResourceId => ErrorClass::UnknownResource,
        GpuResponse::ErrRutabaga(RendererError::InvalidResourceId) => ErrorClass::UnknownResource,
        _ => ErrorClass::Other,
    }
}

impl GpuTraceStats {
    /// No event counted.
    pub open spec fn zero() -> Self {
        GpuTraceStats {
            submits: 0,
            unknown_ctx: 0,
            unknown_resource: 0,
            errors_other: 0,
            fences_requested: 0,
            fences_retired: 0,
            dump_requested: false,
            journal_live: 0,
            journal_recorded: 0,
            journal_pruned: 0,
        }
    }

    /// One refusal of this class counted; the first unknown context also asks for a dump.
    pub open spec fn counted(self, class: ErrorClass) -> Self {
        match class {
            ErrorClass::UnknownContext => GpuTraceStats {
                unknown_ctx: self.unknown_ctx.wrapping_add(1),
                dump_requested: self.dump_requested || self.unknown_ctx == 0,
                ..self
            },
            ErrorClass::UnknownResource => GpuTraceStats {
                unknown_resource: self.unknown_resource.wrapping_add(1),
                ..self
            },
            ErrorClass::Other => GpuTraceStats {
                errors_other: self.errors_other.wrapping_add(1),
                ..self
            },
        }
    }

    /// Counts a refused command in its class.
    pub fn classify_error(&mut self, resp: &GpuResponse)
        ensures
            *final(self) == old(self).counted(error_class(*resp)),
    {
        match resp {
            GpuResponse::ErrRutabaga(
                RendererError::InvalidContextId,
            ) | GpuResponse::ErrInvalidContextId => {
                if self.unknown_ctx == 0 {
                    self.dump_requested = true;
                }
                self.unknown_ctx = self.unknown_ctx.wrapping_add(1);
            },
            GpuResponse::ErrRutabaga(
                RendererError::InvalidResourceId,
            ) | GpuResponse::ErrInvalidResourceId => {
                self.unknown_resource = self.unknown_resource.wrapping_add(1);
            },
            _ => {
                self.errors_other = self.errors_other.wrapping_add(1);
            },
        }
    }
}

/// How far a counter moved since `prev`, which it then becomes.
pub fn delta(now: u64, prev: &mut u64) -> (d: u64)
    requires
        *old(prev) <= now,
    ensures
        d == now - *old(prev),
        *final(prev) == now,
{
    let d: u64 = now - *prev;
    *prev = now;
    d
}

/// The counters at a tick, or how far they moved between two.
#[derive(Clone, Copy, PartialEq, Eq, Structural, Debug)]
pub struct TickSnapshot {
    pub submits: u64,
    pub unknown_ctx: u64,
    pub unknown_resource: u64,
    pub errors_other: u64,
    pub fences_requested: u64,
    pub fences_retired: u64,
}

impl TickSnapshot {
    /// The counters of `stats`.
    pub open spec fn of(stats: GpuTraceStats) -> Self {
        TickSnapshot {
            submits: stats.submits,
            unknown_ctx: stats.unknown_ctx,
            unknown_resource: stats.unknown_resource,
            errors_other: stats.errors_other,
            fences_requested: stats.fences_requested,
            fences_retired: stats.fences_retired,
        }
    }

    /// No counter of `self` is past that of `later`.
    pub open spec fn before(self, later: Self) -> bool {
        &&& self.submits <= later.submits
        &&& self.unknown_ctx <= later.unknown_ctx
        &&& self.unknown_resource <= later.unknown_resource
        &&& self.errors_other <= later.errors_other
        &&& self.fences_requested <= later.fences_requested
        &&& self.fences_retired <= later.fences_retired
    }

    /// How far the counters moved since this snapshot, which is then brought up to them.
    pub fn advance(&mut self, stats: &GpuTraceStats) -> (moved: TickSnapshot)
        requires
            old(self).before(Self::of(*stats)),
        ensures
            *final(self) == Self::of(*stats),
            moved.submits == stats.submits - old(self).submits,
            moved.unknown_ctx == stats.unknown_ctx - old(self).unknown_ctx,
            moved.unknown_resource == stats.unknown_resource - old(self).unknown_resource,
            moved.errors_other == stats.errors_other - old(self).errors_other,
            moved.fences_requested == stats.fences_requested - old(self).fences_requested,
            moved.fences_retired == stats.fences_retired - old(self).fences_retired,
    {
        TickSnapshot {
            submits: delta(stats.submits, &mut self.submits),
            unknown_ctx: delta(stats.unknown_ctx, &mut self.unknown_ctx),
            unknown_resource: delta(stats.unknown_resource, &mut self.unknown_resource),
            errors_other: delta(stats.errors_other, &mut self.errors_other),
            fences_requested: delta(stats.fences_requested, &mut self.fences_requested),
            fences_retired: delta(stats.fences_retired, &mut self.fences_retired),
        }
    }
}

/// Whether the reporter asks for a renderer dump on this tick: every tenth, when dumps are on.
pub fn dump_due(renderer_ticks: bool, tick: u64) -> (r: bool)
    ensures
        r == (renderer_ticks && tick % 10 == 0),
{
    renderer_ticks && tick % 10 == 0
}

} // verus!
