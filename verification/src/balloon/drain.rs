//! Draining the balloon's queues.
//!
//! What is done to a queue or to the host's memory is done outside: a drain says what comes next,
//! and is told how it went. All that a chain of buffers asks for is done before the chain goes
//! back, since the guest may use its pages again from then on.
use crate::balloon::device::{Balloon, BalloonView};
use crate::balloon::queues;
use crate::balloon::queues::{read_chain, Buffer, Frame};
use crate::balloon::reclaim::Run;
use crate::balloon::runs;
use crate::guest_memory;
use vm_memory::GuestMemoryMmap;
use vstd::prelude::*;

verus! {

/// The queues that name pages.
#[derive(Clone, Copy, PartialEq, Eq, Structural, Debug)]
pub enum PageQueue {
    /// Pages that the guest puts into the balloon.
    Inflate,
    /// Pages that it takes out again.
    Deflate,
    /// Pages that it does not use at the moment.
    Report,
}

/// One thing that a chain of buffers asks for.
#[derive(Clone, Copy, PartialEq, Eq, Debug)]
pub enum Item {
    /// Release a run that is free.
    Free(Run),
    /// Put a frame into the balloon.
    In(Frame),
    /// Take a frame out of the balloon.
    Out(Frame),
}

impl Item {
    /// The host page that a frame lies in does not begin below the guest's addresses.
    pub open spec fn in_reach(self, host_page: usize) -> bool {
        match self {
            Item::Free(_) => true,
            Item::In(f) => f.host matches Some(h) ==> f.guest >= h as int % host_page as int,
            Item::Out(f) => f.host matches Some(h) ==> f.guest >= h as int % host_page as int,
        }
    }
}

/// Every item is in reach.
pub open spec fn all_in_reach(host_page: usize, items: Seq<Item>) -> bool {
    forall|i: int| 0 <= i < items.len() ==> (#[trigger] items[i]).in_reach(host_page)
}

pub open spec fn frees(v: Seq<Run>) -> Seq<Item> {
    v.map_values(|r: Run| Item::Free(r))
}

pub open spec fn ins(v: Seq<Frame>) -> Seq<Item> {
    v.map_values(|f: Frame| Item::In(f))
}

pub open spec fn outs(v: Seq<Frame>) -> Seq<Item> {
    v.map_values(|f: Frame| Item::Out(f))
}

/// What a drain asks for.
#[derive(Clone, Copy, PartialEq, Eq, Structural, Debug)]
pub enum PageRequest {
    /// Take the next chain of the guest's and look at it.
    Pop,
    /// Give host memory back: where it lies in the host and in the guest, and how long it is.
    Release { base: usize, gpa: u64, len: usize },
    /// Take host memory for the guest again.
    Reclaim { gpa: u64, len: usize },
    /// Give the chain back, with so many bytes in it.
    AddUsed { index: u16, written: u32 },
}

/// What a drain is told.
pub enum PageReply {
    /// The guest has no more chains.
    Empty,
    /// A chain, and what it asks for.
    Head { index: u16, items: Vec<Item> },
    /// Whether the memory went back.
    Released(bool),
    /// It is done.
    Done,
}

pub enum PageReplyView {
    Empty,
    Head { index: u16, items: Seq<Item> },
    Released(bool),
    Done,
}

impl View for PageReply {
    type V = PageReplyView;

    open spec fn view(&self) -> PageReplyView {
        match self {
            PageReply::Empty => PageReplyView::Empty,
            PageReply::Head { index, items } => PageReplyView::Head {
                index: *index,
                items: items@,
            },
            PageReply::Released(ok) => PageReplyView::Released(*ok),
            PageReply::Done => PageReplyView::Done,
        }
    }
}

impl PageReplyView {
    /// What a chain asks for is in reach.
    pub open spec fn in_reach(self, host_page: usize) -> bool {
        self matches PageReplyView::Head { items, .. } ==> all_in_reach(host_page, items)
    }
}

/// Where a drain is.
#[derive(Clone, Copy, PartialEq, Eq, Debug)]
pub enum PagePhase {
    Popping,
    /// Releases a run for the chain; `inflated` says that it is a host page of the balloon.
    Releasing { index: u16, run: Run, inflated: bool },
    Reclaiming { index: u16, gpa: u64, len: usize },
    Returning { index: u16 },
    Over,
}

/// A drain of one of the queues.
pub struct PageDrain {
    /// What the chain at hand asks for.
    items: Vec<Item>,
    /// How much of it was done.
    at: usize,
    phase: PagePhase,
    have_used: bool,
}

pub struct PageDrainView {
    /// What the chain at hand still asks for.
    pub items: Seq<Item>,
    pub phase: PagePhase,
    /// A chain was taken, and goes back.
    pub have_used: bool,
}

impl View for PageDrain {
    type V = PageDrainView;

    closed spec fn view(&self) -> PageDrainView {
        PageDrainView {
            items: self.items@.skip(self.at as int),
            phase: self.phase,
            have_used: self.have_used,
        }
    }
}

/// What an item needs of the host.
pub enum Need {
    Release { run: Run, inflated: bool },
    Reclaim { gpa: u64, len: usize },
}

impl BalloonView {
    /// After an item, and what it needs of the host. A frame outside guest memory is passed over.
    pub open spec fn item(self, item: Item) -> (Self, Option<Need>) {
        let page = self.inflated.host_page;
        match item {
            Item::Free(run) => (self, Some(Need::Release { run, inflated: false })),
            Item::In(f) => match f.host {
                Some(host) => {
                    let (after, r) = self.frame_in(host as int, f.guest);
                    match r {
                        Ok(Some((base, gpa))) => (
                            after,
                            Some(Need::Release { run: (base, gpa, page), inflated: true }),
                        ),
                        _ => (after, None),
                    }
                },
                None => (self, None),
            },
            Item::Out(f) => match f.host {
                Some(host) => {
                    let (after, r) = self.frame_out(host as int, f.guest);
                    match r {
                        Ok(Some((_, gpa))) => (after, Some(Need::Reclaim { gpa, len: page })),
                        _ => (after, None),
                    }
                },
                None => (self, None),
            },
        }
    }

    /// Goes through the items up to the first that needs the host: the balloon then, the items
    /// that are left, and what is needed.
    pub open spec fn work(self, items: Seq<Item>) -> (Self, Seq<Item>, Option<Need>)
        decreases items.len(),
    {
        if items.len() == 0 {
            (self, items, None)
        } else {
            let (after, need) = self.item(items[0]);
            if need is Some {
                (after, items.skip(1), need)
            } else {
                after.work(items.skip(1))
            }
        }
    }

    /// Whether a run went back. What did is counted; a host page of the balloon that did not is
    /// tried again later.
    pub open spec fn answered(self, run: Run, inflated: bool, ok: bool) -> Self {
        if ok {
            BalloonView {
                reclaimed_bytes: self.reclaimed_bytes.wrapping_add(run.2 as u64),
                ..self
            }
        } else if inflated {
            BalloonView { inflated: self.inflated.not_released(run.0), ..self }
        } else {
            self
        }
    }
}

impl PageDrainView {
    pub open spec fn start() -> Self {
        PageDrainView { items: Seq::empty(), phase: PagePhase::Popping, have_used: false }
    }

    /// What comes next.
    pub open spec fn due(self) -> Option<PageRequest> {
        match self.phase {
            PagePhase::Popping => Some(PageRequest::Pop),
            PagePhase::Releasing { run, .. } => Some(
                PageRequest::Release { base: run.0, gpa: run.1, len: run.2 },
            ),
            PagePhase::Reclaiming { gpa, len, .. } => Some(PageRequest::Reclaim { gpa, len }),
            PagePhase::Returning { index } => Some(PageRequest::AddUsed { index, written: 0 }),
            PagePhase::Over => None,
        }
    }

    /// Goes on with what a chain asks for; it goes back when nothing is left.
    pub open spec fn go_on(self, balloon: BalloonView, index: u16, items: Seq<Item>) -> (
        Self,
        BalloonView,
    ) {
        let (after, left, need) = balloon.work(items);
        let phase = match need {
            Some(Need::Release { run, inflated }) => PagePhase::Releasing { index, run, inflated },
            Some(Need::Reclaim { gpa, len }) => PagePhase::Reclaiming { index, gpa, len },
            None => PagePhase::Returning { index },
        };
        (PageDrainView { items: left, phase, have_used: true }, after)
    }

    /// The drain and the balloon after a reply.
    pub open spec fn after(self, balloon: BalloonView, reply: PageReplyView) -> (
        Self,
        BalloonView,
    ) {
        match self.phase {
            PagePhase::Popping => match reply {
                PageReplyView::Head { index, items } => self.go_on(balloon, index, items),
                _ => (PageDrainView { phase: PagePhase::Over, ..self }, balloon),
            },
            PagePhase::Releasing { index, run, inflated } => self.go_on(
                balloon.answered(run, inflated, reply == PageReplyView::Released(true)),
                index,
                self.items,
            ),
            PagePhase::Reclaiming { index, .. } => self.go_on(balloon, index, self.items),
            PagePhase::Returning { .. } => (
                PageDrainView { phase: PagePhase::Popping, ..self },
                balloon,
            ),
            PagePhase::Over => (self, balloon),
        }
    }
}

impl Balloon {
    /// What a chain of a queue asks for. The frame numbers are what the guest wrote, and where the
    /// host keeps its memory is the mapping's affair.
    pub fn read_head(&self, queue: PageQueue, mem: &GuestMemoryMmap, bufs: &Vec<Buffer>) -> (r: Vec<
        Item,
    >)
        requires
            self.inv(),
        ensures
            ({
                let page = self@.inflated.host_page;
                let regions = guest_memory::guest_regions(*mem);
                match queue {
                    PageQueue::Report => exists|hosts: Seq<usize>, out: Seq<Run>|
                        hosts.len() == bufs@.len() && #[trigger] runs::reclaims(
                            page,
                            queues::free_runs(page, regions, bufs@, hosts),
                            out,
                        ) && r@ == frees(out),
                    PageQueue::Inflate => exists|pfns: Seq<u32>, frames: Seq<Frame>|
                        pfns.len() == queues::all_readable_frames(regions, bufs@)
                            && #[trigger] queues::all_named(regions, pfns, frames) && r@ == ins(
                            frames,
                        ),
                    PageQueue::Deflate => exists|pfns: Seq<u32>, frames: Seq<Frame>|
                        pfns.len() == queues::all_readable_frames(regions, bufs@)
                            && #[trigger] queues::all_named(regions, pfns, frames) && r@ == outs(
                            frames,
                        ),
                }
            }),
    {
        let mut r: Vec<Item> = Vec::new();
        let mut i: usize = 0;
        if queue == PageQueue::Report {
            let out: Vec<Run> = self.process_frq(mem, bufs);
            while i < out.len()
                invariant
                    i <= out@.len(),
                    r@ == frees(out@).take(i as int),
                decreases out@.len() - i,
            {
                r.push(Item::Free(out[i]));
                i = i + 1;
                assert(r@ =~= frees(out@).take(i as int));
            }
            assert(r@ =~= frees(out@));
            return r;
        }
        let frames: Vec<Frame> = read_chain(mem, bufs);
        let out: bool = queue == PageQueue::Deflate;
        let ghost all = if out {
            outs(frames@)
        } else {
            ins(frames@)
        };
        while i < frames.len()
            invariant
                i <= frames@.len(),
                all == if out {
                    outs(frames@)
                } else {
                    ins(frames@)
                },
                r@ == all.take(i as int),
            decreases frames@.len() - i,
        {
            r.push(
                if out {
                    Item::Out(frames[i])
                } else {
                    Item::In(frames[i])
                },
            );
            i = i + 1;
            assert(r@ =~= all.take(i as int));
        }
        assert(r@ =~= all);
        r
    }

    /// Whether what a chain asks for is in reach.
    pub fn in_reach(&self, items: &Vec<Item>) -> (r: bool)
        requires
            self.inv(),
        ensures
            r == all_in_reach(self@.inflated.host_page, items@),
    {
        let page: usize = self.host_page();
        let mut i: usize = 0;
        while i < items.len()
            invariant
                i <= items@.len(),
                page == self@.inflated.host_page,
                page > 0,
                forall|j: int| 0 <= j < i ==> (#[trigger] items@[j]).in_reach(page),
            decreases items@.len() - i,
        {
            let frame: Option<Frame> = match items[i] {
                Item::Free(_) => None,
                Item::In(f) => Some(f),
                Item::Out(f) => Some(f),
            };
            if let Some(f) = frame {
                if let Some(h) = f.host {
                    if f.guest < (h % page) as u64 {
                        assert(!items@[i as int].in_reach(page));
                        return false;
                    }
                }
            }
            i = i + 1;
        }
        true
    }

    /// One item, and what it needs of the host.
    fn take_item(&mut self, item: Item) -> (r: Option<Need>)
        requires
            old(self).inv(),
        ensures
            final(self).inv(),
            (final(self)@, r) == old(self)@.item(item),
            final(self)@.inflated.host_page == old(self)@.inflated.host_page,
    {
        let page: usize = self.host_page();
        match item {
            Item::Free(run) => Some(Need::Release { run, inflated: false }),
            Item::In(f) => match self.process_ifq(f) {
                Ok(Some((base, gpa))) => Some(
                    Need::Release { run: (base, gpa, page), inflated: true },
                ),
                _ => None,
            },
            Item::Out(f) => match self.process_dfq(f) {
                Ok(Some((_, gpa))) => Some(Need::Reclaim { gpa, len: page }),
                _ => None,
            },
        }
    }
}

impl PageDrain {
    /// What was done is no more than there was to do.
    pub closed spec fn inv(self) -> bool {
        self.at <= self.items@.len()
    }

    /// A drain before its first step.
    pub fn new() -> (r: Self)
        ensures
            r.inv(),
            r@ == PageDrainView::start(),
    {
        let r = PageDrain {
            items: Vec::new(),
            at: 0,
            phase: PagePhase::Popping,
            have_used: false,
        };
        assert(r@.items =~= Seq::empty());
        r
    }

    /// What comes next; nothing when the drain is over.
    pub fn next(&self) -> (r: Option<PageRequest>)
        ensures
            r == self@.due(),
    {
        match self.phase {
            PagePhase::Popping => Some(PageRequest::Pop),
            PagePhase::Releasing { run, .. } => Some(
                PageRequest::Release { base: run.0, gpa: run.1, len: run.2 },
            ),
            PagePhase::Reclaiming { gpa, len, .. } => Some(PageRequest::Reclaim { gpa, len }),
            PagePhase::Returning { index } => Some(PageRequest::AddUsed { index, written: 0 }),
            PagePhase::Over => None,
        }
    }

    /// Whether a chain went back, so that the guest is to be told.
    pub fn have_used(&self) -> (r: bool)
        ensures
            r == self@.have_used,
    {
        self.have_used
    }

    /// Goes on with what the chain at hand asks for.
    fn go_on(&mut self, balloon: &mut Balloon, index: u16)
        requires
            old(self).inv(),
            old(balloon).inv(),
        ensures
            final(self).inv(),
            final(balloon).inv(),
            (final(self)@, final(balloon)@) == old(self)@.go_on(
                old(balloon)@,
                index,
                old(self)@.items,
            ),
    {
        let ghost start = balloon@;
        let ghost all = self@.items;
        self.have_used = true;
        assert(self@.items =~= all);
        while self.at < self.items.len()
            invariant
                self.inv(),
                balloon.inv(),
                self.have_used,
                start == old(balloon)@,
                all == old(self)@.items,
                start.work(all) == balloon@.work(self@.items),
            decreases self.items@.len() - self.at,
        {
            let item: Item = self.items[self.at];
            let ghost before = balloon@;
            let ghost left = self@.items;
            assert(left[0] == item);
            let need: Option<Need> = balloon.take_item(item);
            self.at = self.at + 1;
            assert(self@.items =~= left.skip(1));
            match need {
                Some(Need::Release { run, inflated }) => {
                    self.phase = PagePhase::Releasing { index, run, inflated };
                    return;
                },
                Some(Need::Reclaim { gpa, len }) => {
                    self.phase = PagePhase::Reclaiming { index, gpa, len };
                    return;
                },
                None => {},
            }
        }
        self.phase = PagePhase::Returning { index };
    }

    /// Takes a reply. What it asks of the balloon is done to it.
    pub fn advance(&mut self, balloon: &mut Balloon, reply: PageReply)
        requires
            old(self).inv(),
            old(balloon).inv(),
            reply@.in_reach(old(balloon)@.inflated.host_page),
        ensures
            final(self).inv(),
            final(balloon).inv(),
            (final(self)@, final(balloon)@) == old(self)@.after(old(balloon)@, reply@),
    {
        match self.phase {
            PagePhase::Popping => match reply {
                PageReply::Head { index, items } => {
                    self.items = items;
                    self.at = 0;
                    assert(self@.items =~= items@);
                    self.go_on(balloon, index);
                },
                _ => {
                    self.phase = PagePhase::Over;
                },
            },
            PagePhase::Releasing { index, run, inflated } => {
                let ok: bool = match reply {
                    PageReply::Released(ok) => ok,
                    _ => false,
                };
                if inflated {
                    balloon.released(run.0, run.2, ok);
                } else if ok {
                    balloon.report_released(run.2);
                }
                self.go_on(balloon, index);
            },
            PagePhase::Reclaiming { index, .. } => {
                self.go_on(balloon, index);
            },
            PagePhase::Returning { .. } => {
                self.phase = PagePhase::Popping;
            },
            PagePhase::Over => {},
        }
    }
}

} // verus!
