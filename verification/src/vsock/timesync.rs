//! Setting the guest's clock: at intervals, and after the host slept.
use vstd::prelude::*;

verus! {

/// The guest's clock is set at least this often, in nanoseconds.
pub const UPDATE_INTERVAL: u64 = 60_000_000_000;

/// How long the thread sleeps between looks, in nanoseconds.
pub const SLEEP_NSECS: u64 = 2_000_000_000;

/// The port on both sides.
pub const TSYNC_PORT: u32 = 123;

pub const VSOCK_OP_RW: u16 = 5;

pub const VSOCK_TYPE_DGRAM: u16 = 3;

pub const VSOCK_HOST_CID: u64 = 2;

/// The time from `then` to `now`; none where the clock was set back between them.
pub open spec fn elapsed(now: u64, then: u64) -> u64 {
    if now < then {
        0
    } else {
        (now - then) as u64
    }
}

/// Whether the guest's clock is to be set: the thread slept three times longer than it meant to,
/// which it does when the host naps, or the interval is over.
pub open spec fn is_due(now: u64, last_awake: u64, last_update: u64) -> bool {
    elapsed(now, last_awake) >= 3 * SLEEP_NSECS || elapsed(now, last_update) >= UPDATE_INTERVAL
}

/// Whether the guest's clock is to be set.
pub fn sync_due(now: u64, last_awake: u64, last_update: u64) -> (r: bool)
    ensures
        r == is_due(now, last_awake, last_update),
{
    now.saturating_sub(last_awake) >= SLEEP_NSECS * 3 || now.saturating_sub(last_update)
        >= UPDATE_INTERVAL
}

/// The header of a packet that sets the guest's clock.
#[derive(Clone, Copy, PartialEq, Eq, Structural, Debug)]
pub struct TimeHeader {
    pub op: u16,
    pub src_cid: u64,
    pub dst_cid: u64,
    pub src_port: u32,
    pub dst_port: u32,
    pub type_: u16,
}

/// What the thread does at a look.
#[derive(Clone, Copy, PartialEq, Eq, Structural, Debug)]
pub enum Look {
    /// The activation is over: end without touching the guest's buffers.
    End,
    /// Set the guest's clock to this time.
    Send(u64),
    Idle,
}

pub struct TimesyncThread {
    cid: u64,
    last_update: u64,
    last_awake: u64,
}

pub struct TimesyncView {
    pub cid: u64,
    pub last_update: u64,
    pub last_awake: u64,
}

impl View for TimesyncThread {
    type V = TimesyncView;

    closed spec fn view(&self) -> TimesyncView {
        TimesyncView {
            cid: self.cid,
            last_update: self.last_update,
            last_awake: self.last_awake,
        }
    }
}

impl TimesyncView {
    /// What a look leads to.
    pub open spec fn look(self, stopped: bool, now: u64) -> Look {
        if stopped {
            Look::End
        } else if is_due(now, self.last_awake, self.last_update) {
            Look::Send(now)
        } else {
            Look::Idle
        }
    }

    /// After a look.
    pub open spec fn looked(self, stopped: bool, now: u64) -> Self {
        if self.look(stopped, now) == Look::Send(now) {
            TimesyncView { last_update: now, ..self }
        } else {
            self
        }
    }
}

impl TimesyncThread {
    /// A thread for the guest with this id, that begins now. The clock was never set.
    pub fn new(cid: u64, now: u64) -> (r: Self)
        ensures
            r@ == (TimesyncView { cid, last_update: 0, last_awake: now }),
    {
        TimesyncThread { cid, last_update: 0, last_awake: now }
    }

    /// Looks at the clock; `stopped` says whether the activation is over.
    pub fn work(&mut self, stopped: bool, now: u64) -> (r: Look)
        ensures
            r == old(self)@.look(stopped, now),
            final(self)@ == old(self)@.looked(stopped, now),
    {
        if stopped {
            return Look::End;
        }
        if sync_due(now, self.last_awake, self.last_update) {
            self.last_update = now;
            Look::Send(now)
        } else {
            Look::Idle
        }
    }

    /// The thread is about to sleep.
    pub fn sleeping(&mut self, now: u64)
        ensures
            final(self)@ == (TimesyncView { last_awake: now, ..old(self)@ }),
    {
        self.last_awake = now;
    }

    /// The header of the packet that sets the clock.
    pub fn header(&self) -> (r: TimeHeader)
        ensures
            r == (TimeHeader {
                op: VSOCK_OP_RW,
                src_cid: VSOCK_HOST_CID,
                dst_cid: self@.cid,
                src_port: TSYNC_PORT,
                dst_port: TSYNC_PORT,
                type_: VSOCK_TYPE_DGRAM,
            }),
    {
        TimeHeader {
            op: VSOCK_OP_RW,
            src_cid: VSOCK_HOST_CID,
            dst_cid: self.cid,
            src_port: TSYNC_PORT,
            dst_port: TSYNC_PORT,
            type_: VSOCK_TYPE_DGRAM,
        }
    }
}

/// A clock that was set back makes nothing due by itself: no time went by since then.
pub proof fn law_backward_step_is_no_nap(now: u64, last_awake: u64, last_update: u64)
    requires
        now <= last_awake,
        now <= last_update,
    ensures
        !is_due(now, last_awake, last_update),
{
}

/// The guest's clock is set when the host woke from a nap, and never left alone for longer than the
/// interval: what is due stays due until it is done.
pub proof fn law_due_stays_due(now: u64, later: u64, last_awake: u64, last_update: u64)
    requires
        now <= later,
        is_due(now, last_awake, last_update),
    ensures
        is_due(later, last_awake, last_update),
        now - last_update >= UPDATE_INTERVAL || now - last_awake >= 3 * SLEEP_NSECS,
{
}

/// An activation that is over is not written into any more.
pub proof fn law_stopped_thread_sends_nothing(v: TimesyncView, now: u64)
    ensures
        v.look(true, now) == Look::End,
        v.looked(true, now) == v,
{
}

/// The guest's clock is set when six seconds went by over a nap of two, or a minute since the last
/// time, and not before.
pub proof fn law_when_the_clock_is_set(now: u64, last_awake: u64, last_update: u64)
    ensures
        is_due(now, last_awake, last_update) <==> (now >= last_awake + 6_000_000_000 || now
            >= last_update + 60_000_000_000),
{
}

/// The clock is set to the time of the look, and then left alone until the next nap or minute.
pub proof fn law_clock_is_set_to_now(v: TimesyncView, now: u64, later: u64)
    requires
        v.last_awake <= now <= later < now + 60_000_000_000,
        later < v.last_awake + 6_000_000_000,
    ensures
        v.look(false, now) == Look::Send(now) || v.look(false, now) == Look::Idle,
        v.look(false, now) == Look::Send(now) <==> now >= v.last_update + 60_000_000_000,
        v.look(false, now) == Look::Send(now) ==> v.looked(false, now).last_update == now,
        v.look(false, now) == Look::Send(now) ==> v.looked(false, now).look(false, later)
            == Look::Idle,
        v.look(false, now) == Look::Idle ==> v.looked(false, now) == v,
        v.looked(false, now).cid == v.cid,
        v.looked(false, now).last_awake == v.last_awake,
{
}

} // verus!
