//! Fence-accurate presents: frames parked until the guest's GPU work completes, and the guest's
//! flush fences held until those frames are on glass.
//!
//! Every parked frame presents on its own retirement. A held fence completes when the display
//! confirmed its frames, a fallback when a confirmation is lost, and a ceiling whatever happens.
use crate::gpu::fence::{RendererFence, PRESENT_RING};
use crate::gpu::protocol::{VIRTIO_GPU_FLAG_FENCE, VIRTIO_GPU_FLAG_INFO_RING_IDX};
use crate::ordered;
use std::collections::{BTreeMap, BTreeSet, VecDeque};
use vstd::prelude::*;
use vstd::string::*;

verus! {
/// A held fence completes this long after it was made, whatever became of its frames.
pub const HOLD_CEILING_NS: u64 = 500_000_000;

/// How long a presented frame's confirmation is waited for.
pub const ACK_FALLBACK_NS: u64 = 150_000_000;

#[derive(Clone, Copy, PartialEq, Eq, Structural, Debug)]
pub struct Rect {
    pub x: u32,
    pub y: u32,
    pub width: u32,
    pub height: u32,
}

/// A frame that waits for its present fence.
#[derive(Clone, Copy, PartialEq, Eq, Structural, Debug)]
pub struct ParkedFlush {
    pub scanout_id: u32,
    pub iosurface_id: u32,
    pub resource_id: u32,
    pub rect: Rect,
}

/// A guest flush fence held back until its frames are shown.
pub struct GuestFlushHold {
    fence: RendererFence,
    /// The cookies of the frames that were not presented yet.
    unpresented: BTreeSet<u64>,
    /// The cookies of the frames that were not confirmed yet.
    unconfirmed: BTreeSet<u64>,
    /// When a lost confirmation is given up, once all frames were presented.
    fallback_at: Option<u64>,
    created_at: u64,
}

pub struct HoldView {
    pub fence: RendererFence,
    pub unpresented: Set<u64>,
    pub unconfirmed: Set<u64>,
    pub fallback_at: Option<u64>,
    pub created_at: u64,
}

impl View for GuestFlushHold {
    type V = HoldView;

    closed spec fn view(&self) -> HoldView {
        HoldView {
            fence: self.fence,
            unpresented: self.unpresented@,
            unconfirmed: self.unconfirmed@,
            fallback_at: self.fallback_at,
            created_at: self.created_at,
        }
    }
}

/// What is to be done about a held fence.
#[derive(Clone, Copy, PartialEq, Eq, Structural, Debug)]
pub enum HoldAction {
    /// Complete the fence now.
    Complete(RendererFence),
    /// Complete the fence at this time.
    Latch(u64, RendererFence),
}

impl HoldView {
    /// The frame of `cookie` was presented; without confirmations that settles it.
    pub open spec fn presented(self, cookie: u64, acks: bool) -> Self {
        HoldView {
            unpresented: self.unpresented.remove(cookie),
            unconfirmed: if acks {
                self.unconfirmed
            } else {
                self.unconfirmed.remove(cookie)
            },
            ..self
        }
    }

    /// The frame of `cookie` is confirmed.
    pub open spec fn confirmed(self, cookie: u64) -> Self {
        HoldView { unconfirmed: self.unconfirmed.remove(cookie), ..self }
    }

    /// The ceiling has passed.
    pub open spec fn expired(self, now: u64) -> bool {
        now > self.created_at + HOLD_CEILING_NS
    }

    /// The hold after looking at it at `now`: gone, or kept, its fallback perhaps armed.
    pub open spec fn settled(self, now: u64, acks: bool) -> Option<HoldView> {
        if self.expired(now) || self.unconfirmed.is_empty() {
            None
        } else {
            match self.fallback_at {
                Some(t) => if now > t {
                    None
                } else {
                    Some(self)
                },
                None => if acks && self.unpresented.is_empty() {
                    Some(HoldView { fallback_at: Some((now + ACK_FALLBACK_NS) as u64), ..self })
                } else {
                    Some(self)
                },
            }
        }
    }

    /// What looking at the hold at `now` asks for.
    pub open spec fn action(self, now: u64, acks: bool, delay: u64) -> Option<HoldAction> {
        if self.expired(now) {
            None
        } else if self.unconfirmed.is_empty() {
            if acks {
                Some(HoldAction::Complete(self.fence))
            } else {
                Some(HoldAction::Latch((now + delay) as u64, self.fence))
            }
        } else if self.fallback_at is None && acks && self.unpresented.is_empty() {
            Some(HoldAction::Latch((now + ACK_FALLBACK_NS) as u64, self.fence))
        } else {
            None
        }
    }
}

impl GuestFlushHold {
    fn note_presented(&mut self, cookie: u64, acks: bool)
        ensures
            final(self)@ == old(self)@.presented(cookie, acks),
    {
        ordered::set_remove(&mut self.unpresented, cookie);
        if !acks {
            ordered::set_remove(&mut self.unconfirmed, cookie);
        }
    }

    fn note_confirmed(&mut self, cookie: u64)
        ensures
            final(self)@ == old(self)@.confirmed(cookie),
    {
        ordered::set_remove(&mut self.unconfirmed, cookie);
    }
}

pub open spec fn holds_view(s: Seq<GuestFlushHold>) -> Seq<HoldView> {
    s.map_values(|h: GuestFlushHold| h@)
}

pub struct PresentFenceState {
    next_cookie: u64,
    parked: BTreeMap<u64, ParkedFlush>,
    flush_parked_cookies: Vec<u64>,
    guest_holds: Vec<GuestFlushHold>,
    /// How long after a present the guest is told, when nothing confirms presents.
    latch_delay_ns: u64,
    /// Whether the display confirms what it shows.
    ack_active: bool,
    awaiting_shown: VecDeque<(u32, u64)>,
}

pub struct PresentView {
    pub next_cookie: nat,
    /// The parked frames by cookie.
    pub parked: Map<u64, ParkedFlush>,
    /// The cookies that the running flush command parked.
    pub flush_cookies: Seq<u64>,
    pub holds: Seq<HoldView>,
    pub latch_delay_ns: u64,
    pub acks: bool,
    /// Presented frames that were not confirmed, in the order they were shown.
    pub awaiting: Seq<(u32, u64)>,
}

impl View for PresentFenceState {
    type V = PresentView;

    closed spec fn view(&self) -> PresentView {
        PresentView {
            next_cookie: self.next_cookie as nat,
            parked: self.parked@,
            flush_cookies: self.flush_parked_cookies@,
            holds: holds_view(self.guest_holds@),
            latch_delay_ns: self.latch_delay_ns,
            acks: self.ack_active,
            awaiting: self.awaiting_shown@,
        }
    }
}

/// The place of the first awaited frame of surface `id`, at or after `from`.
pub open spec fn first_shown(awaiting: Seq<(u32, u64)>, id: u32, from: int) -> Option<int>
    decreases awaiting.len() - from,
{
    if from < 0 || from >= awaiting.len() {
        None
    } else if awaiting[from].0 == id {
        Some(from)
    } else {
        first_shown(awaiting, id, from + 1)
    }
}

/// The hold with every one of `cookies` confirmed.
pub open spec fn confirm_all(h: HoldView, cookies: Seq<(u32, u64)>) -> HoldView
    decreases cookies.len(),
{
    if cookies.len() == 0 {
        h
    } else {
        confirm_all(h, cookies.drop_last()).confirmed(cookies.last().1)
    }
}

/// The cookies other than `cookie`, in order.
pub open spec fn without(cookies: Seq<u64>, cookie: u64) -> Seq<u64>
    decreases cookies.len(),
{
    if cookies.len() == 0 {
        Seq::empty()
    } else if cookies.last() == cookie {
        without(cookies.drop_last(), cookie)
    } else {
        without(cookies.drop_last(), cookie).push(cookies.last())
    }
}

impl PresentView {
    /// Cookies are handed out once.
    pub open spec fn wf(self) -> bool {
        &&& self.next_cookie <= u64::MAX
        &&& forall|c: u64| #[trigger] self.parked.contains_key(c) ==> c < self.next_cookie
        &&& forall|i: int|
            0 <= i < self.flush_cookies.len() ==> #[trigger] self.flush_cookies[i] < self.next_cookie
    }

    /// Nothing here refers to the queue of this activation.
    pub open spec fn quiescent(self) -> bool {
        &&& self.parked.is_empty()
        &&& self.flush_cookies.len() == 0
        &&& self.holds.len() == 0
        &&& self.awaiting.len() == 0
    }

    /// A frame parked under the next cookie.
    pub open spec fn park(self, frame: ParkedFlush) -> Self {
        PresentView {
            next_cookie: self.next_cookie + 1,
            parked: self.parked.insert(self.next_cookie as u64, frame),
            flush_cookies: self.flush_cookies.push(self.next_cookie as u64),
            ..self
        }
    }

    /// The frame of `cookie` no longer parked, nor waited for by the running flush.
    pub open spec fn unpark(self, cookie: u64) -> Self {
        PresentView {
            parked: self.parked.remove(cookie),
            flush_cookies: without(self.flush_cookies, cookie),
            ..self
        }
    }

    /// The present fence of `cookie` retired: its frame, if it is parked, is presented.
    pub open spec fn retire(self, cookie: u64) -> Self {
        if self.parked.contains_key(cookie) {
            let acks = self.acks;
            PresentView {
                parked: self.parked.remove(cookie),
                holds: self.holds.map_values(|h: HoldView| h.presented(cookie, acks)),
                awaiting: if self.acks {
                    self.awaiting.push((self.parked[cookie].iosurface_id, cookie))
                } else {
                    self.awaiting
                },
                ..self
            }
        } else {
            self
        }
    }

    /// The present fences of `cookies` retired one after another.
    pub open spec fn retire_all(self, cookies: Seq<u64>) -> Self
        decreases cookies.len(),
    {
        if cookies.len() == 0 {
            self
        } else {
            self.retire_all(cookies.drop_last()).retire(cookies.last())
        }
    }

    /// The frames that `cookies` present, in order.
    pub open spec fn hits(self, cookies: Seq<u64>) -> Seq<ParkedFlush>
        decreases cookies.len(),
    {
        if cookies.len() == 0 {
            Seq::empty()
        } else {
            let before = self.retire_all(cookies.drop_last());
            if before.parked.contains_key(cookies.last()) {
                self.hits(cookies.drop_last()).push(before.parked[cookies.last()])
            } else {
                self.hits(cookies.drop_last())
            }
        }
    }

    /// The display shows surface `id`: it and every frame awaited before it is confirmed. A
    /// surface that is not awaited confirms nothing.
    pub open spec fn shown(self, id: u32) -> Self {
        match first_shown(self.awaiting, id, 0) {
            Some(k) => {
                let gone = self.awaiting.take(k + 1);
                PresentView {
                    holds: self.holds.map_values(|h: HoldView| confirm_all(h, gone)),
                    awaiting: self.awaiting.skip(k + 1),
                    ..self
                }
            },
            None => self,
        }
    }

    pub open spec fn shown_all(self, ids: Seq<u32>) -> Self
        decreases ids.len(),
    {
        if ids.len() == 0 {
            self
        } else {
            self.shown_all(ids.drop_last()).shown(ids.last())
        }
    }

    /// The holds that are left after each was looked at.
    pub open spec fn holds_left(self, now: u64, n: nat) -> Seq<HoldView>
        decreases n,
    {
        if n == 0 {
            Seq::empty()
        } else {
            let before = self.holds_left(now, (n - 1) as nat);
            match self.holds[n - 1].settled(now, self.acks) {
                Some(h) => before.push(h),
                None => before,
            }
        }
    }

    /// What looking at each hold asks for, in order.
    pub open spec fn hold_actions(self, now: u64, n: nat) -> Seq<HoldAction>
        decreases n,
    {
        if n == 0 {
            Seq::empty()
        } else {
            let before = self.hold_actions(now, (n - 1) as nat);
            match self.holds[n - 1].action(now, self.acks, self.latch_delay_ns) {
                Some(a) => before.push(a),
                None => before,
            }
        }
    }

    /// Every hold looked at.
    pub open spec fn settle(self, now: u64) -> Self {
        PresentView { holds: self.holds_left(now, self.holds.len()), ..self }
    }
}

/// What the worker does after a round of presents.
pub struct PresentRound {
    /// The frames to show, in order.
    pub hits: Vec<ParkedFlush>,
    /// What is to be done about held fences, in order.
    pub actions: Vec<HoldAction>,
}

impl PresentFenceState {
    pub fn new(latch_delay_ns: u64, ack_active: bool) -> (r: Self)
        ensures
            r@ == (PresentView {
                next_cookie: 1,
                parked: Map::empty(),
                flush_cookies: Seq::empty(),
                holds: Seq::empty(),
                latch_delay_ns,
                acks: ack_active,
                awaiting: Seq::empty(),
            }),
            r@.wf(),
    {
        let r = PresentFenceState {
            next_cookie: 1,
            parked: BTreeMap::new(),
            flush_parked_cookies: Vec::new(),
            guest_holds: Vec::new(),
            latch_delay_ns,
            ack_active,
            awaiting_shown: VecDeque::new(),
        };
        assert(holds_view(r.guest_holds@) =~= Seq::empty());
        r
    }

    /// Whether another frame can be numbered.
    pub fn room_left(&self) -> (r: bool)
        ensures
            r == (self@.next_cookie < u64::MAX),
    {
        self.next_cookie < u64::MAX
    }

    /// A new flush command parks cookies of its own.
    pub fn begin_flush(&mut self)
        requires
            old(self)@.wf(),
        ensures
            final(self)@ == (PresentView { flush_cookies: Seq::empty(), ..old(self)@ }),
            final(self)@.wf(),
    {
        self.flush_parked_cookies.clear();
    }

    /// Parks a frame and gives the fence that its presentation waits for, to be injected on the
    /// present ring of the rendering context.
    pub fn park(&mut self, frame: ParkedFlush, ctx_id: u32) -> (fence: RendererFence)
        requires
            old(self)@.wf(),
            old(self)@.next_cookie < u64::MAX,
        ensures
            final(self)@ == old(self)@.park(frame),
            final(self)@.wf(),
            fence == (RendererFence {
                flags: VIRTIO_GPU_FLAG_FENCE | VIRTIO_GPU_FLAG_INFO_RING_IDX,
                fence_id: old(self)@.next_cookie as u64,
                ctx_id,
                ring_idx: PRESENT_RING,
            }),
    {
        let cookie: u64 = self.next_cookie;
        self.next_cookie = cookie + 1;
        ordered::insert(&mut self.parked, cookie, frame);
        self.flush_parked_cookies.push(cookie);
        assert forall|i: int| 0 <= i < self@.flush_cookies.len() implies #[trigger] self@.flush_cookies[i]
            < self@.next_cookie by {
            if i < old(self)@.flush_cookies.len() {
                assert(old(self)@.flush_cookies[i] < old(self)@.next_cookie);
            }
        }
        RendererFence {
            flags: VIRTIO_GPU_FLAG_FENCE | VIRTIO_GPU_FLAG_INFO_RING_IDX,
            fence_id: cookie,
            ctx_id,
            ring_idx: PRESENT_RING,
        }
    }

    /// The fence could not be injected: the cookie goes all the way back, so that no held fence
    /// waits for a frame that can never present.
    pub fn unpark(&mut self, cookie: u64)
        requires
            old(self)@.wf(),
        ensures
            final(self)@ == old(self)@.unpark(cookie),
            final(self)@.wf(),
    {
        ordered::remove(&mut self.parked, cookie);
        let ghost all = self.flush_parked_cookies@;
        let mut left: Vec<u64> = Vec::new();
        let mut i: usize = 0;
        while i < self.flush_parked_cookies.len()
            invariant
                i <= all.len(),
                all == self.flush_parked_cookies@,
                left@ == without(all.take(i as int), cookie),
                self@ == (PresentView { parked: old(self)@.parked.remove(cookie), ..old(self)@ }),
                forall|j: int| 0 <= j < all.len() ==> #[trigger] all[j] < self@.next_cookie,
                forall|j: int| 0 <= j < left@.len() ==> #[trigger] left@[j] < self@.next_cookie,
            decreases all.len() - i,
        {
            assert(all.take(i + 1).drop_last() =~= all.take(i as int));
            let c: u64 = self.flush_parked_cookies[i];
            if c != cookie {
                left.push(c);
            }
            i = i + 1;
        }
        assert(all.take(all.len() as int) =~= all);
        self.flush_parked_cookies = left;
    }

    /// Holds back the fence of a flush whose frames were parked: the guest is told once they are
    /// shown. Returns the time at which the fence completes at the latest, or `None` when the
    /// fence is not held. Only a flush's fence on the device's own ring is.
    pub fn hold_flush_fence(&mut self, fence: RendererFence, is_flush: bool, now: u64) -> (r: Option<
        u64,
    >)
        requires
            old(self)@.wf(),
            now + HOLD_CEILING_NS <= u64::MAX,
        ensures
            final(self)@.wf(),
            ({
                let held = is_flush && fence.flags & VIRTIO_GPU_FLAG_INFO_RING_IDX == 0 && old(
                    self,
                )@.flush_cookies.len() > 0;
                let cookies = old(self)@.flush_cookies.to_set();
                if held {
                    &&& r == Some((now + HOLD_CEILING_NS) as u64)
                    &&& final(self)@ == (PresentView {
                        flush_cookies: Seq::empty(),
                        holds: old(self)@.holds.push(
                            HoldView {
                                fence,
                                unpresented: cookies,
                                unconfirmed: cookies,
                                fallback_at: None,
                                created_at: now,
                            },
                        ),
                        ..old(self)@
                    })
                } else {
                    r is None && final(self)@ == old(self)@
                }
            }),
    {
        if !is_flush || fence.flags & VIRTIO_GPU_FLAG_INFO_RING_IDX != 0
            || self.flush_parked_cookies.len() == 0 {
            return None;
        }
        let ghost all = self.flush_parked_cookies@;
        let mut unpresented: BTreeSet<u64> = BTreeSet::new();
        let mut unconfirmed: BTreeSet<u64> = BTreeSet::new();
        let mut i: usize = 0;
        assert(all.take(0).to_set() =~= Set::empty());
        while i < self.flush_parked_cookies.len()
            invariant
                i <= all.len(),
                all == self.flush_parked_cookies@,
                *self == *old(self),
                unpresented@ == all.take(i as int).to_set(),
                unconfirmed@ == all.take(i as int).to_set(),
            decreases all.len() - i,
        {
            let c: u64 = self.flush_parked_cookies[i];
            proof {
                let a = all.take(i as int);
                let b = all.take(i + 1);
                assert(b =~= a.push(c));
                assert forall|x: u64| b.to_set().contains(x) == a.to_set().insert(c).contains(x) by {
                    if a.contains(x) {
                        let k = choose|k: int| 0 <= k < a.len() && a[k] == x;
                        assert(b[k] == x);
                    }
                    if b.contains(x) && x != c {
                        let k = choose|k: int| 0 <= k < b.len() && b[k] == x;
                        assert(a[k] == x);
                    }
                    assert(b[i as int] == c);
                }
                assert(b.to_set() =~= a.to_set().insert(c));
            }
            ordered::set_insert(&mut unpresented, c);
            ordered::set_insert(&mut unconfirmed, c);
            i = i + 1;
        }
        assert(all.take(all.len() as int) =~= all);
        self.flush_parked_cookies.clear();
        let hold = GuestFlushHold {
            fence,
            unpresented,
            unconfirmed,
            fallback_at: None,
            created_at: now,
        };
        self.guest_holds.push(hold);
        assert(holds_view(self.guest_holds@) =~= holds_view(old(self).guest_holds@).push(hold@));
        assert(self.flush_parked_cookies@ =~= Seq::empty());
        Some(now + HOLD_CEILING_NS)
    }

    /// One present fence retired.
    fn retire(&mut self, cookie: u64) -> (hit: Option<ParkedFlush>)
        requires
            old(self)@.wf(),
        ensures
            final(self)@ == old(self)@.retire(cookie),
            final(self)@.wf(),
            hit == (if old(self)@.parked.contains_key(cookie) {
                Some(old(self)@.parked[cookie])
            } else {
                None
            }),
    {
        match ordered::remove(&mut self.parked, cookie) {
            Some(p) => {
                let ghost start = holds_view(self.guest_holds@);
                let acks: bool = self.ack_active;
                let n: usize = self.guest_holds.len();
                let mut i: usize = 0;
                while i < n
                    invariant
                        i <= n == self.guest_holds@.len() == start.len(),
                        acks == self.ack_active,
                        acks == old(self).ack_active,
                        self@ == (PresentView {
                            parked: old(self)@.parked.remove(cookie),
                            holds: self@.holds,
                            ..old(self)@
                        }),
                        start == old(self)@.holds,
                        forall|j: int|
                            0 <= j < n ==> #[trigger] self@.holds[j] == (if j < i {
                                start[j].presented(cookie, acks)
                            } else {
                                start[j]
                            }),
                    decreases n - i,
                {
                    let ghost before = self@.holds;
                    let h = &mut self.guest_holds[i];
                    h.note_presented(cookie, acks);
                    assert(self@.holds =~= before.update(
                        i as int,
                        before[i as int].presented(cookie, acks),
                    ));
                    i = i + 1;
                }
                assert(self@.holds =~= start.map_values(
                    |h: HoldView| h.presented(cookie, acks),
                ));
                if acks {
                    self.awaiting_shown.push_back((p.iosurface_id, cookie));
                }
                Some(p)
            },
            None => {
                assert(old(self)@.parked.remove(cookie) =~= old(self)@.parked);
                None
            },
        }
    }

    /// The frame of `cookie` is confirmed for every hold.
    fn confirm(&mut self, cookie: u64)
        ensures
            final(self)@ == (PresentView {
                holds: old(self)@.holds.map_values(|h: HoldView| h.confirmed(cookie)),
                ..old(self)@
            }),
    {
        let ghost start = self@.holds;
        let n: usize = self.guest_holds.len();
        let mut i: usize = 0;
        while i < n
            invariant
                i <= n == self.guest_holds@.len() == start.len(),
                self@ == (PresentView { holds: self@.holds, ..old(self)@ }),
                start == old(self)@.holds,
                forall|j: int|
                    0 <= j < n ==> #[trigger] self@.holds[j] == (if j < i {
                        start[j].confirmed(cookie)
                    } else {
                        start[j]
                    }),
            decreases n - i,
        {
            let ghost before = self@.holds;
            let h = &mut self.guest_holds[i];
            h.note_confirmed(cookie);
            assert(self@.holds =~= before.update(i as int, before[i as int].confirmed(cookie)));
            i = i + 1;
        }
        assert(self@.holds =~= start.map_values(|h: HoldView| h.confirmed(cookie)));
    }

    /// The display shows surface `id`.
    fn shown(&mut self, id: u32)
        requires
            old(self)@.wf(),
        ensures
            final(self)@ == old(self)@.shown(id),
            final(self)@.wf(),
    {
        let ghost start = self@;
        let n: usize = self.awaiting_shown.len();
        let mut k: usize = 0;
        let mut found: bool = false;
        while k < n && !found
            invariant
                k <= n == self.awaiting_shown@.len(),
                self@ == start,
                start == old(self)@,
                !found ==> first_shown(start.awaiting, id, 0) == first_shown(
                    start.awaiting,
                    id,
                    k as int,
                ),
                found ==> k < n && first_shown(start.awaiting, id, 0) == Some(k as int),
            decreases
                    n - k + (if found {
                        0int
                    } else {
                        1int
                    }),
        {
            if self.awaiting_shown[k].0 == id {
                found = true;
            } else {
                k = k + 1;
            }
        }
        if !found {
            return ;
        }
        let ghost gone = start.awaiting.take(k + 1);
        let mut i: usize = 0;
        assert(start.awaiting.take(0) =~= Seq::empty());
        assert(self@.holds =~= start.holds.map_values(
            |h: HoldView| confirm_all(h, start.awaiting.take(0)),
        ));
        assert(self@.awaiting =~= start.awaiting.skip(0));
        while i <= k
            invariant
                i <= k + 1 <= n == start.awaiting.len(),
                self@ == (PresentView {
                    holds: start.holds.map_values(
                        |h: HoldView| confirm_all(h, start.awaiting.take(i as int)),
                    ),
                    awaiting: start.awaiting.skip(i as int),
                    ..start
                }),
            decreases k + 1 - i,
        {
            let ghost before = self@;
            match self.awaiting_shown.pop_front() {
                Some(entry) => {
                    let cookie: u64 = entry.1;
                    proof {
                        assert(self@.awaiting =~= start.awaiting.skip(i + 1));
                        assert(start.awaiting.take(i + 1).drop_last() =~= start.awaiting.take(
                            i as int,
                        ));
                        assert(start.awaiting.take(i + 1).last() == entry);
                    }
                    self.confirm(cookie);
                    assert(self@.holds =~= start.holds.map_values(
                        |h: HoldView| confirm_all(h, start.awaiting.take(i + 1)),
                    ));
                },
                None => {},
            }
            i = i + 1;
        }
    }

    /// Looks at every hold: completes what is confirmed, drops what the ceiling or the fallback
    /// already completed, and arms the fallback of what only waits for confirmation.
    fn settle(&mut self, now: u64) -> (actions: Vec<HoldAction>)
        requires
            old(self)@.wf(),
            now + ACK_FALLBACK_NS <= u64::MAX,
            now + old(self)@.latch_delay_ns <= u64::MAX,
        ensures
            final(self)@ == old(self)@.settle(now),
            final(self)@.wf(),
            actions@ == old(self)@.hold_actions(now, old(self)@.holds.len()),
    {
        let ghost start = self@;
        let mut holds: Vec<GuestFlushHold> = Vec::new();
        std::mem::swap(&mut self.guest_holds, &mut holds);
        let mut left: Vec<GuestFlushHold> = Vec::new();
        let mut actions: Vec<HoldAction> = Vec::new();
        let ghost all = holds@;
        assert(holds_view(left@) =~= Seq::empty());
        for hold in it: holds
            invariant
                it.seq() == holds@,
                all == holds@,
                start == old(self)@,
                start.holds == holds_view(all),
                now + ACK_FALLBACK_NS <= u64::MAX,
                now + start.latch_delay_ns <= u64::MAX,
                self@ == (PresentView { holds: self@.holds, ..start }),
                self.ack_active == start.acks,
                self.latch_delay_ns == start.latch_delay_ns,
                holds_view(left@) == start.holds_left(now, it.index() as nat),
                actions@ == start.hold_actions(now, it.index() as nat),
        {
            let ghost i = it.index();
            let ghost hv = hold@;
            let ghost was = left@;
            assert(start.holds[i] == hv);
            let mut hold = hold;
            if now > hold.created_at && now - hold.created_at > HOLD_CEILING_NS {
                assert(hv.expired(now));
            } else if hold.unconfirmed.is_empty() {
                if self.ack_active {
                    actions.push(HoldAction::Complete(hold.fence));
                } else {
                    actions.push(HoldAction::Latch(now + self.latch_delay_ns, hold.fence));
                }
            } else {
                match hold.fallback_at {
                    Some(t) => {
                        if now <= t {
                            left.push(hold);
                            assert(holds_view(left@) =~= holds_view(was).push(hv));
                        }
                    },
                    None => {
                        if self.ack_active && hold.unpresented.is_empty() {
                            let at: u64 = now + ACK_FALLBACK_NS;
                            hold.fallback_at = Some(at);
                            actions.push(HoldAction::Latch(at, hold.fence));
                        }
                        let ghost kept = hold@;
                        left.push(hold);
                        assert(holds_view(left@) =~= holds_view(was).push(kept));
                    },
                }
            }
        }
        self.guest_holds = left;
        actions
    }

    /// A round of presents: the present fences of `cookies` retired and the display confirmed
    /// `shown`. Gives the frames to show and what is to be done about held fences.
    pub fn process_retired_presents(&mut self, cookies: &[u64], shown: &[u32], now: u64) -> (r:
        PresentRound)
        requires
            old(self)@.wf(),
            now + ACK_FALLBACK_NS <= u64::MAX,
            now + old(self)@.latch_delay_ns <= u64::MAX,
        ensures
            ({
                let before = old(self)@.retire_all(cookies@).shown_all(shown@);
                &&& r.hits@ == old(self)@.hits(cookies@)
                &&& r.actions@ == before.hold_actions(now, before.holds.len())
                &&& final(self)@ == before.settle(now)
            }),
            final(self)@.wf(),
    {
        let ghost start = self@;
        let mut hits: Vec<ParkedFlush> = Vec::new();
        let mut i: usize = 0;
        assert(cookies@.take(0) =~= Seq::empty());
        while i < cookies.len()
            invariant
                i <= cookies@.len(),
                start == old(self)@,
                self@.wf(),
                self@.latch_delay_ns == start.latch_delay_ns,
                self@ == start.retire_all(cookies@.take(i as int)),
                hits@ == start.hits(cookies@.take(i as int)),
            decreases cookies@.len() - i,
        {
            assert(cookies@.take(i + 1).drop_last() =~= cookies@.take(i as int));
            match self.retire(cookies[i]) {
                Some(p) => {
                    hits.push(p);
                },
                None => {},
            }
            i = i + 1;
        }
        assert(cookies@.take(cookies@.len() as int) =~= cookies@);
        let ghost mid = self@;
        let mut j: usize = 0;
        assert(shown@.take(0) =~= Seq::empty());
        while j < shown.len()
            invariant
                j <= shown@.len(),
                self@.wf(),
                self@.latch_delay_ns == start.latch_delay_ns,
                self@ == mid.shown_all(shown@.take(j as int)),
            decreases shown@.len() - j,
        {
            assert(shown@.take(j + 1).drop_last() =~= shown@.take(j as int));
            self.shown(shown[j]);
            j = j + 1;
        }
        assert(shown@.take(shown@.len() as int) =~= shown@);
        let actions: Vec<HoldAction> = self.settle(now);
        PresentRound { hits, actions }
    }

    /// Whether nothing here refers to the queue of this activation; `retired` says whether a
    /// retired present fence still waits to be processed.
    pub fn present_quiescent(&self, retired: bool) -> (r: bool)
        ensures
            r == (!retired && self@.quiescent()),
    {
        !retired && self.parked.is_empty() && self.flush_parked_cookies.len() == 0
            && self.guest_holds.len() == 0 && self.awaiting_shown.len() == 0
    }

    /// Drops what only looks forward: the running flush's cookies and the confirmations that are
    /// still awaited. Returns how many there were of each.
    pub fn discard_stale_present_bookkeeping(&mut self) -> (r: (usize, usize))
        requires
            old(self)@.wf(),
        ensures
            r.0 == old(self)@.flush_cookies.len(),
            r.1 == old(self)@.awaiting.len(),
            final(self)@ == (PresentView {
                flush_cookies: Seq::empty(),
                awaiting: Seq::empty(),
                ..old(self)@
            }),
            final(self)@.wf(),
    {
        let r = (self.flush_parked_cookies.len(), self.awaiting_shown.len());
        self.flush_parked_cookies.clear();
        self.awaiting_shown.clear();
        r
    }

    /// Drops parked frames and held fences: they belong to a queue that is gone. Cookies go on
    /// counting.
    pub fn reset(&mut self)
        requires
            old(self)@.wf(),
        ensures
            final(self)@ == (PresentView {
                parked: Map::empty(),
                flush_cookies: Seq::empty(),
                holds: Seq::empty(),
                awaiting: Seq::empty(),
                ..old(self)@
            }),
            final(self)@.wf(),
            final(self)@.quiescent(),
    {
        self.parked.clear();
        self.flush_parked_cookies.clear();
        self.guest_holds.clear();
        self.awaiting_shown.clear();
        assert(holds_view(self.guest_holds@) =~= Seq::empty());
    }
}

/// `off` in any mix of cases.
pub open spec fn is_off(s: Seq<char>) -> bool {
    &&& s.len() == 3
    &&& (s[0] == 'o' || s[0] == 'O')
    &&& (s[1] == 'f' || s[1] == 'F')
    &&& (s[2] == 'f' || s[2] == 'F')
}

/// Whether presents wait for fences: an explicit setting wins, `0` and `off` meaning no and
/// anything else yes. Without one they do exactly when the display confirms what it shows.
pub fn fence_present_policy(env: Option<&str>, ack_channel: bool) -> (r: bool)
    ensures
        r == match env {
            Some(v) => !(v@ == seq!['0'] || is_off(v@)),
            None => ack_channel,
        },
{
    match env {
        Some(v) => {
            let n: usize = v.unicode_len();
            if n == 1 {
                let c = v.get_char(0);
                assert((c == '0') == (v@ =~= seq!['0']));
                c != '0'
            } else if n == 3 {
                let a = v.get_char(0);
                let b = v.get_char(1);
                let c = v.get_char(2);
                !((a == 'o' || a == 'O') && (b == 'f' || b == 'F') && (c == 'f' || c == 'F'))
            } else {
                true
            }
        },
        None => ack_channel,
    }
}

/// A frame whose fence could not be injected leaves nothing behind but a spent cookie: no parked
/// frame, and no cookie for a held fence to wait for.
pub proof fn law_failed_park_leaves_nothing(v: PresentView, frame: ParkedFlush)
    requires
        v.wf(),
        v.next_cookie < u64::MAX,
    ensures
        v.park(frame).unpark(v.next_cookie as u64) == (PresentView {
            next_cookie: v.next_cookie + 1,
            ..v
        }),
{
    let cookie = v.next_cookie as u64;
    let w = v.park(frame).unpark(cookie);
    assert(w.parked =~= v.parked);
    lemma_without_absent(v.flush_cookies, cookie);
    assert(v.flush_cookies.push(cookie).drop_last() =~= v.flush_cookies);
}

proof fn lemma_without_absent(s: Seq<u64>, cookie: u64)
    requires
        forall|i: int| 0 <= i < s.len() ==> #[trigger] s[i] < cookie,
    ensures
        without(s, cookie) == s,
    decreases s.len(),
{
    if s.len() > 0 {
        assert(s[s.len() - 1] < cookie);
        lemma_without_absent(s.drop_last(), cookie);
        assert(s.drop_last().push(s.last()) =~= s);
    }
}

/// A held fence is never forgotten: past its ceiling it is dropped, and was scheduled to complete
/// then; before that it is completed, scheduled, or still held.
pub proof fn law_hold_completes_or_stays(h: HoldView, now: u64, acks: bool, delay: u64)
    ensures
        h.settled(now, acks) is None ==> {
            ||| h.expired(now)
            ||| h.action(now, acks, delay) matches Some(a) && (a == HoldAction::Complete(h.fence)
                || a == HoldAction::Latch((now + delay) as u64, h.fence))
            ||| h.fallback_at matches Some(t) && now > t
        },
        h.settled(now, acks) matches Some(k) ==> {
            &&& k.fence == h.fence
            &&& k.created_at == h.created_at
            &&& k.unconfirmed == h.unconfirmed
            &&& k.fallback_at != h.fallback_at ==> h.action(now, acks, delay) == Some(
                HoldAction::Latch(k.fallback_at.unwrap(), h.fence),
            )
        },
{
}

/// The cookies of retired fences are presented once: a frame that was shown is no longer parked.
pub proof fn law_frames_present_once(v: PresentView, cookie: u64)
    ensures
        !v.retire(cookie).parked.contains_key(cookie),
        v.retire(cookie).retire(cookie) == v.retire(cookie),
        v.retire(cookie).next_cookie == v.next_cookie,
{
}

} // verus!
