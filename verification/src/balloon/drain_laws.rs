//! What holds of all drains of the balloon's queues.
use crate::balloon::device::BalloonView;
use crate::balloon::drain::{Item, Need, PageDrainView, PagePhase, PageReplyView, PageRequest};
use crate::balloon::drain;
use crate::balloon::inflate;
use crate::balloon::inflate::InflatedView;
use crate::balloon::queues;
use crate::balloon::reclaim;
use crate::balloon::reclaim::Run;
use vstd::prelude::*;

verus! {

impl PageDrainView {
    /// The drain and the balloon after these replies, one behind the other.
    pub open spec fn after_all(self, balloon: BalloonView, replies: Seq<PageReplyView>) -> (
        Self,
        BalloonView,
    )
        decreases replies.len(),
    {
        if replies.len() == 0 {
            (self, balloon)
        } else {
            let (d, v) = self.after_all(balloon, replies.drop_last());
            d.after(v, replies.last())
        }
    }

    /// What the last of the replies answered.
    pub open spec fn asked(self, balloon: BalloonView, replies: Seq<PageReplyView>) -> Option<
        PageRequest,
    > {
        self.after_all(balloon, replies.drop_last()).0.due()
    }

    /// The chains that were taken, in order.
    pub open spec fn popped(self, balloon: BalloonView, replies: Seq<PageReplyView>) -> Seq<u16>
        decreases replies.len(),
    {
        if replies.len() == 0 {
            Seq::empty()
        } else {
            let before = self.popped(balloon, replies.drop_last());
            match replies.last() {
                PageReplyView::Head { index, .. } if self.asked(balloon, replies) == Some(
                    PageRequest::Pop,
                ) => before.push(index),
                _ => before,
            }
        }
    }

    /// The chains that went back, in order, each with the length it went back with.
    pub open spec fn given_back(self, balloon: BalloonView, replies: Seq<PageReplyView>) -> Seq<
        (u16, u32),
    >
        decreases replies.len(),
    {
        if replies.len() == 0 {
            Seq::empty()
        } else {
            let before = self.given_back(balloon, replies.drop_last());
            match self.asked(balloon, replies) {
                Some(PageRequest::AddUsed { index, written }) => before.push((index, written)),
                _ => before,
            }
        }
    }

    /// The runs that the host was asked to take, in order.
    pub open spec fn let_go(self, balloon: BalloonView, replies: Seq<PageReplyView>) -> Seq<Run>
        decreases replies.len(),
    {
        if replies.len() == 0 {
            Seq::empty()
        } else {
            let before = self.let_go(balloon, replies.drop_last());
            match self.asked(balloon, replies) {
                Some(PageRequest::Release { base, gpa, len }) => before.push((base, gpa, len)),
                _ => before,
            }
        }
    }

    /// The chain at hand.
    pub open spec fn holds(self) -> Option<u16> {
        match self.phase {
            PagePhase::Releasing { index, .. } => Some(index),
            PagePhase::Reclaiming { index, .. } => Some(index),
            PagePhase::Returning { index } => Some(index),
            _ => None,
        }
    }
}

/// Every chain that a drain takes goes back once, in order and with nothing written into it, and
/// only when all that it asks for is done. None is left when the drain is over. The guest is to be
/// told exactly when there was one.
pub proof fn law_every_chain_goes_back(balloon: BalloonView, replies: Seq<PageReplyView>)
    ensures
        ({
            let start = PageDrainView::start();
            let d = start.after_all(balloon, replies).0;
            let popped = start.popped(balloon, replies);
            let back = start.given_back(balloon, replies);
            &&& forall|i: int| 0 <= i < back.len() ==> #[trigger] back[i] == (popped[i], 0u32)
            &&& match d.holds() {
                Some(index) => popped.len() == back.len() + 1 && popped.last() == index,
                None => popped.len() == back.len(),
            }
            &&& d.due() is None ==> d.holds() is None
            &&& d.due() matches Some(PageRequest::AddUsed { .. }) ==> d.items.len() == 0
            &&& d.have_used == (popped.len() > 0)
        }),
    decreases replies.len(),
{
    if replies.len() > 0 {
        law_every_chain_goes_back(balloon, replies.drop_last());
        let (d, v) = PageDrainView::start().after_all(balloon, replies.drop_last());
        match d.phase {
            PagePhase::Popping => {
                if let PageReplyView::Head { items, .. } = replies.last() {
                    lemma_work_ends(v, items);
                }
            },
            PagePhase::Releasing { run, inflated, .. } => {
                lemma_work_ends(
                    v.answered(run, inflated, replies.last() == PageReplyView::Released(true)),
                    d.items,
                );
            },
            PagePhase::Reclaiming { .. } => {
                lemma_work_ends(v, d.items);
            },
            _ => {},
        }
    }
}

/// Nothing is left of items that need nothing more.
proof fn lemma_work_ends(v: BalloonView, items: Seq<Item>)
    ensures
        v.work(items).2 is None ==> v.work(items).1.len() == 0,
    decreases items.len(),
{
    if items.len() > 0 {
        lemma_work_ends(v.item(items[0]).0, items.skip(1));
    }
}

/// The frames among the items that the guest puts into the balloon and has memory for.
pub open spec fn frames_in(items: Seq<Item>) -> Seq<(int, u64)>
    decreases items.len(),
{
    if items.len() == 0 {
        Seq::empty()
    } else {
        let rest = frames_in(items.skip(1));
        match items[0] {
            Item::In(f) => match f.host {
                Some(h) => seq![(h as int, f.guest)] + rest,
                None => rest,
            },
            _ => rest,
        }
    }
}

/// The items only put frames into the balloon, and are in reach.
pub open spec fn inflating(host_page: usize, items: Seq<Item>) -> bool {
    &&& drain::all_in_reach(host_page, items)
    &&& forall|i: int| 0 <= i < items.len() ==> (#[trigger] items[i]) is In
}

impl PageDrainView {
    /// The frames that the chains put into the balloon, in order.
    pub open spec fn put_in(self, balloon: BalloonView, replies: Seq<PageReplyView>) -> Seq<
        (int, u64),
    >
        decreases replies.len(),
    {
        if replies.len() == 0 {
            Seq::empty()
        } else {
            let before = self.put_in(balloon, replies.drop_last());
            match replies.last() {
                PageReplyView::Head { items, .. } if self.asked(balloon, replies) == Some(
                    PageRequest::Pop,
                ) => before + frames_in(items),
                _ => before,
            }
        }
    }
}

/// The chains only put frames into the balloon, and the host takes all that it is asked to.
pub open spec fn well_inflated(balloon: BalloonView, replies: Seq<PageReplyView>) -> bool
    decreases replies.len(),
{
    replies.len() > 0 ==> {
        &&& well_inflated(balloon, replies.drop_last())
        &&& PageDrainView::start().asked(balloon, replies) matches Some(PageRequest::Release { .. })
            ==> replies.last() == PageReplyView::Released(true)
        &&& replies.last() matches PageReplyView::Head { items, .. } ==> inflating(
            balloon.inflated.host_page,
            items,
        )
    }
}

/// The balloon after these drains of the inflate queue, one behind the other.
pub open spec fn after_drains(balloon: BalloonView, drains: Seq<Seq<PageReplyView>>) -> BalloonView
    decreases drains.len(),
{
    if drains.len() == 0 {
        balloon
    } else {
        PageDrainView::start().after_all(
            after_drains(balloon, drains.drop_last()),
            drains.last(),
        ).1
    }
}

/// Each drain ran to its end, put frames in and had the host take what it was asked to.
pub open spec fn all_well_inflated(balloon: BalloonView, drains: Seq<Seq<PageReplyView>>) -> bool
    decreases drains.len(),
{
    drains.len() > 0 ==> {
        let before = after_drains(balloon, drains.drop_last());
        &&& all_well_inflated(balloon, drains.drop_last())
        &&& well_inflated(before, drains.last())
        &&& PageDrainView::start().after_all(before, drains.last()).0.due() is None
    }
}

/// The frames that the drains put into the balloon, in order.
pub open spec fn all_put_in(balloon: BalloonView, drains: Seq<Seq<PageReplyView>>) -> Seq<
    (int, u64),
>
    decreases drains.len(),
{
    if drains.len() == 0 {
        Seq::empty()
    } else {
        all_put_in(balloon, drains.drop_last()) + PageDrainView::start().put_in(
            after_drains(balloon, drains.drop_last()),
            drains.last(),
        )
    }
}

/// The runs that the host was asked to take in the drains, in order.
pub open spec fn all_let_go(balloon: BalloonView, drains: Seq<Seq<PageReplyView>>) -> Seq<Run>
    decreases drains.len(),
{
    if drains.len() == 0 {
        Seq::empty()
    } else {
        all_let_go(balloon, drains.drop_last()) + PageDrainView::start().let_go(
            after_drains(balloon, drains.drop_last()),
            drains.last(),
        )
    }
}

/// How many of the runs begin at `b`.
pub open spec fn times(runs: Seq<Run>, b: int) -> nat
    decreases runs.len(),
{
    if runs.len() == 0 {
        0
    } else {
        times(runs.drop_last(), b) + (if runs.last().0 == b {
            1nat
        } else {
            0
        })
    }
}

/// Over all the drains of the inflate queue since a reset, however the guest spreads its frames
/// over chains and drains, where the host takes what it is asked to: the host is asked to take a
/// host page, whole and once, exactly if all its guest pages were put in; and the bytes counted
/// grow by a host page each time.
pub proof fn law_drains_release_whole_pages(
    v: BalloonView,
    drains: Seq<Seq<PageReplyView>>,
    b: int,
)
    requires
        reclaim::valid_host_page(v.inflated.host_page),
        v.inflated == InflatedView::empty(v.inflated.host_page),
        all_well_inflated(v, drains),
        0 <= b <= usize::MAX,
        b % (v.inflated.host_page as int) == 0,
    ensures
        ({
            let page = v.inflated.host_page;
            let gone = all_let_go(v, drains);
            let hosts = queues::hosts_of(all_put_in(v, drains));
            &&& times(gone, b) == if inflate::all_in(page, hosts, b) {
                1nat
            } else {
                0
            }
            &&& forall|i: int| 0 <= i < gone.len() ==> (#[trigger] gone[i]).2 == page
            &&& after_drains(v, drains).reclaimed_bytes == (v.reclaimed_bytes + page * gone.len())
                % 0x1_0000_0000_0000_0000
        }),
{
    let frames = all_put_in(v, drains);
    lemma_drains(v, drains, b);
    queues::law_inflated_host_pages_are_released(v, frames, b);
}

/// Every frame lies in the host, in a host page whose start has an address in the guest.
spec fn reachable(page: usize, frames: Seq<(int, u64)>) -> bool {
    forall|i: int|
        0 <= i < frames.len() ==> {
            &&& 0 <= (#[trigger] frames[i]).0 <= usize::MAX
            &&& frames[i].1 >= frames[i].0 % (page as int)
        }
}

/// What came of putting in frames: the balloon, and the runs that the host took for it.
spec fn comes_to(
    v: BalloonView,
    frames: Seq<(int, u64)>,
    after: BalloonView,
    gone: Seq<Run>,
    b: int,
) -> bool {
    let page = v.inflated.host_page;
    &&& reachable(page, frames)
    &&& after == v.frames_released(frames)
    &&& after.inflated.host_page == page
    &&& times(gone, b) == v.inflated.releases(queues::hosts_of(frames), b)
    &&& gone.len() == v.inflated.all_releases(queues::hosts_of(frames))
    &&& forall|i: int| 0 <= i < gone.len() ==> (#[trigger] gone[i]).2 == page
}

proof fn lemma_comes_to_join(
    v: BalloonView,
    fa: Seq<(int, u64)>,
    mid: BalloonView,
    ga: Seq<Run>,
    fb: Seq<(int, u64)>,
    after: BalloonView,
    gb: Seq<Run>,
    b: int,
)
    requires
        comes_to(v, fa, mid, ga, b),
        comes_to(mid, fb, after, gb, b),
    ensures
        comes_to(v, fa + fb, after, ga + gb, b),
{
    let page = v.inflated.host_page;
    queues::lemma_frames_released(v, fa);
    lemma_released_join(v, fa, fb);
    lemma_inflate_join(v.inflated, queues::hosts_of(fa), queues::hosts_of(fb), b);
    assert(queues::hosts_of(fa + fb) =~= queues::hosts_of(fa) + queues::hosts_of(fb));
    lemma_times_join(ga, gb, b);
    assert forall|i: int| 0 <= i < (fa + fb).len() implies {
        &&& 0 <= (#[trigger] (fa + fb)[i]).0 <= usize::MAX
        &&& (fa + fb)[i].1 >= (fa + fb)[i].0 % (page as int)
    } by {
        if i < fa.len() {
            assert((fa + fb)[i] == fa[i]);
        } else {
            assert((fa + fb)[i] == fb[i - fa.len()]);
        }
    }
    assert forall|i: int| 0 <= i < (ga + gb).len() implies (#[trigger] (ga + gb)[i]).2 == page by {
        if i < ga.len() {
            assert((ga + gb)[i] == ga[i]);
        } else {
            assert((ga + gb)[i] == gb[i - ga.len()]);
        }
    }
}

proof fn lemma_times_join(a: Seq<Run>, c: Seq<Run>, b: int)
    ensures
        times(a + c, b) == times(a, b) + times(c, b),
    decreases c.len(),
{
    if c.len() > 0 {
        lemma_times_join(a, c.drop_last(), b);
        assert((a + c).drop_last() =~= a + c.drop_last());
        assert((a + c).last() == c.last());
    } else {
        assert(a + c =~= a);
    }
}

proof fn lemma_released_join(v: BalloonView, a: Seq<(int, u64)>, c: Seq<(int, u64)>)
    ensures
        v.frames_released(a + c) == v.frames_released(a).frames_released(c),
    decreases c.len(),
{
    if c.len() > 0 {
        lemma_released_join(v, a, c.drop_last());
        assert((a + c).drop_last() =~= a + c.drop_last());
        assert((a + c).last() == c.last());
    } else {
        assert(a + c =~= a);
    }
}

proof fn lemma_inflate_join(v: InflatedView, a: Seq<int>, c: Seq<int>, b: int)
    ensures
        v.inflate_all(a + c) == v.inflate_all(a).inflate_all(c),
        v.inflate_all(a).host_page == v.host_page,
        v.releases(a + c, b) == v.releases(a, b) + v.inflate_all(a).releases(c, b),
        v.all_releases(a + c) == v.all_releases(a) + v.inflate_all(a).all_releases(c),
    decreases a.len() + c.len(),
{
    if c.len() > 0 {
        lemma_inflate_join(v, a, c.drop_last(), b);
        assert((a + c).drop_last() =~= a + c.drop_last());
        assert((a + c).last() == c.last());
    } else {
        assert(a + c =~= a);
        if a.len() > 0 {
            lemma_inflate_join(v, a.drop_last(), c, b);
        }
    }
}

proof fn lemma_nothing(v: BalloonView, b: int)
    ensures
        comes_to(v, Seq::empty(), v, Seq::empty(), b),
{
    assert(queues::hosts_of(Seq::empty()) =~= Seq::empty());
}

/// One frame.
proof fn lemma_frame(v: BalloonView, item: Item, h: usize, b: int)
    requires
        reclaim::valid_host_page(v.inflated.host_page),
        item.in_reach(v.inflated.host_page),
        item matches Item::In(f) && f.host == Some(h),
    ensures
        ({
            let one = seq![(h as int, item->In_0.guest)];
            let (after, need) = v.item(item);
            match need {
                Some(Need::Release { run, inflated }) => inflated && comes_to(
                    v,
                    one,
                    after.answered(run, true, true),
                    seq![run],
                    b,
                ),
                Some(Need::Reclaim { .. }) => false,
                None => comes_to(v, one, after, Seq::empty(), b),
            }
        }),
{
    let page = v.inflated.host_page;
    let one = seq![(h as int, item->In_0.guest)];
    let hosts = queues::hosts_of(one);
    reclaim::lemma_page(page, h as int);
    assert(one.drop_last() =~= Seq::empty());
    assert(one.last() == one[0]);
    assert(hosts =~= seq![h as int]);
    assert(hosts.drop_last() =~= Seq::empty());
    assert(v.frames_released(one) == v.frames_released(one.drop_last()).frame_released(
        one.last().0,
        one.last().1,
    ));
    assert(v.frames_released(one.drop_last()) == v);
    assert(v.inflated.inflate_all(hosts.drop_last()) == v.inflated);
    assert(v.inflated.releases(hosts.drop_last(), b) == 0);
    assert(v.inflated.all_releases(hosts.drop_last()) == 0);
    if let Some(Need::Release { run, .. }) = v.item(item).1 {
        assert(seq![run].drop_last() =~= Seq::empty());
        assert(times(seq![run].drop_last(), b) == 0);
        assert(seq![run].last() == run);
    }
}

/// Going through items that put frames in: gives the frames that were put in on the way.
proof fn lemma_work(v: BalloonView, items: Seq<Item>, b: int) -> (done: Seq<(int, u64)>)
    requires
        reclaim::valid_host_page(v.inflated.host_page),
        inflating(v.inflated.host_page, items),
    ensures
        ({
            let (after, left, need) = v.work(items);
            &&& inflating(v.inflated.host_page, left)
            &&& frames_in(items) == done + frames_in(left)
            &&& match need {
                Some(Need::Release { run, inflated }) => inflated && comes_to(
                    v,
                    done,
                    after.answered(run, true, true),
                    seq![run],
                    b,
                ),
                Some(Need::Reclaim { .. }) => false,
                None => left.len() == 0 && comes_to(v, done, after, Seq::empty(), b),
            }
        }),
    decreases items.len(),
{
    let page = v.inflated.host_page;
    if items.len() == 0 {
        lemma_nothing(v, b);
        assert(frames_in(items) =~= Seq::<(int, u64)>::empty() + frames_in(items));
        Seq::empty()
    } else {
        let rest = items.skip(1);
        assert forall|i: int| 0 <= i < rest.len() implies (#[trigger] rest[i]).in_reach(page)
            && rest[i] is In by {
            assert(rest[i] == items[i + 1]);
        }
        assert(items[0].in_reach(page) && items[0] is In);
        let f = items[0]->In_0;
        let (after, need) = v.item(items[0]);
        match f.host {
            Some(h) => {
                let one = seq![(h as int, f.guest)];
                lemma_frame(v, items[0], h, b);
                if need is None {
                    let more = lemma_work(after, rest, b);
                    let (end, left, need) = after.work(rest);
                    match need {
                        Some(Need::Release { run, .. }) => {
                            lemma_comes_to_join(
                                v,
                                one,
                                after,
                                Seq::empty(),
                                more,
                                end.answered(run, true, true),
                                seq![run],
                                b,
                            );
                            assert(Seq::<Run>::empty() + seq![run] =~= seq![run]);
                        },
                        _ => {
                            lemma_comes_to_join(
                                v,
                                one,
                                after,
                                Seq::empty(),
                                more,
                                end,
                                Seq::empty(),
                                b,
                            );
                            assert(Seq::<Run>::empty() + Seq::<Run>::empty()
                                =~= Seq::<Run>::empty());
                        },
                    }
                    assert(frames_in(items) =~= (one + more) + frames_in(left));
                    one + more
                } else {
                    one
                }
            },
            None => lemma_work(after, rest, b),
        }
    }
}

/// A drain so far: gives the frames that were put in; those that the chain at hand still names are
/// not among them.
proof fn lemma_drain(v: BalloonView, replies: Seq<PageReplyView>, b: int) -> (done: Seq<(int, u64)>)
    requires
        reclaim::valid_host_page(v.inflated.host_page),
        well_inflated(v, replies),
    ensures
        ({
            let start = PageDrainView::start();
            let (d, after) = start.after_all(v, replies);
            let gone = start.let_go(v, replies);
            &&& inflating(v.inflated.host_page, d.items)
            &&& start.put_in(v, replies) == done + frames_in(d.items)
            &&& match d.phase {
                PagePhase::Releasing { run, inflated, .. } => inflated && comes_to(
                    v,
                    done,
                    after.answered(run, true, true),
                    gone.push(run),
                    b,
                ),
                PagePhase::Reclaiming { .. } => false,
                _ => d.items.len() == 0 && comes_to(v, done, after, gone, b),
            }
        }),
    decreases replies.len(),
{
    let start = PageDrainView::start();
    if replies.len() == 0 {
        lemma_nothing(v, b);
        assert(start.put_in(v, replies) =~= Seq::<(int, u64)>::empty() + frames_in(start.items));
        Seq::empty()
    } else {
        let short = replies.drop_last();
        let before = lemma_drain(v, short, b);
        let (d, w) = start.after_all(v, short);
        let gone = start.let_go(v, short);
        let all = start.put_in(v, short);
        match d.phase {
            PagePhase::Popping => match replies.last() {
                PageReplyView::Head { items, .. } => {
                    let done = lemma_next(v, before, w, gone, items, b);
                    assert(all =~= before);
                    assert(all + frames_in(items) =~= done + frames_in(w.work(items).1));
                    done
                },
                _ => before,
            },
            PagePhase::Releasing { run, .. } => {
                let m = w.answered(run, true, true);
                let done = lemma_next(v, before, m, gone.push(run), d.items, b);
                assert(all =~= done + frames_in(m.work(d.items).1));
                done
            },
            _ => before,
        }
    }
}

/// The next of a chain's items behind what was done.
proof fn lemma_next(
    v: BalloonView,
    before: Seq<(int, u64)>,
    w: BalloonView,
    gone: Seq<Run>,
    items: Seq<Item>,
    b: int,
) -> (done: Seq<(int, u64)>)
    requires
        reclaim::valid_host_page(v.inflated.host_page),
        comes_to(v, before, w, gone, b),
        inflating(v.inflated.host_page, items),
    ensures
        ({
            let (after, left, need) = w.work(items);
            &&& inflating(v.inflated.host_page, left)
            &&& before + frames_in(items) == done + frames_in(left)
            &&& match need {
                Some(Need::Release { run, inflated }) => inflated && comes_to(
                    v,
                    done,
                    after.answered(run, true, true),
                    gone.push(run),
                    b,
                ),
                Some(Need::Reclaim { .. }) => false,
                None => left.len() == 0 && comes_to(v, done, after, gone, b),
            }
        }),
{
    let more = lemma_work(w, items, b);
    let (after, left, need) = w.work(items);
    match need {
        Some(Need::Release { run, .. }) => {
            lemma_comes_to_join(
                v,
                before,
                w,
                gone,
                more,
                after.answered(run, true, true),
                seq![run],
                b,
            );
            assert(gone + seq![run] =~= gone.push(run));
        },
        _ => {
            lemma_comes_to_join(v, before, w, gone, more, after, Seq::empty(), b);
            assert(gone + Seq::<Run>::empty() =~= gone);
        },
    }
    assert(before + frames_in(items) =~= (before + more) + frames_in(left));
    before + more
}

proof fn lemma_drains(v: BalloonView, drains: Seq<Seq<PageReplyView>>, b: int)
    requires
        reclaim::valid_host_page(v.inflated.host_page),
        all_well_inflated(v, drains),
    ensures
        comes_to(v, all_put_in(v, drains), after_drains(v, drains), all_let_go(v, drains), b),
    decreases drains.len(),
{
    if drains.len() == 0 {
        lemma_nothing(v, b);
    } else {
        let short = drains.drop_last();
        lemma_drains(v, short, b);
        let mid = after_drains(v, short);
        let done = lemma_drain(mid, drains.last(), b);
        assert(PageDrainView::start().put_in(mid, drains.last()) =~= done);
        lemma_comes_to_join(
            v,
            all_put_in(v, short),
            mid,
            all_let_go(v, short),
            done,
            after_drains(v, drains),
            PageDrainView::start().let_go(mid, drains.last()),
            b,
        );
    }
}

} // verus!
