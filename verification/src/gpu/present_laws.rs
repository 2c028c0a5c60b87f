//! What a flush shows, and when the guest hears of it.
use crate::gpu::flush;
use crate::gpu::present;
use crate::gpu::present::{HoldAction, HoldView, ParkedFlush, PresentView, Rect};
use crate::gpu::protocol::{DisplayError, GpuResponseView, RendererError};
use crate::gpu::step::{Flush, ReplyView, Request, StepView};
use crate::gpu::virtio_gpu::{GpuView, Transfer3D};
use vstd::prelude::*;

verus! {

/// What the command asks, if it asks.
pub open spec fn asked(step: StepView) -> Option<Request> {
    match step {
        StepView::Ask { request, .. } => Some(request),
        StepView::Done(_) => None,
    }
}

/// The device and the flush after an answer to what the flush asked.
pub open spec fn answered(gpu: GpuView, step: StepView, reply: ReplyView) -> (GpuView, StepView) {
    match step {
        StepView::Ask { stage, data, .. } => gpu.resume(stage, data, reply),
        StepView::Done(_) => (gpu, step),
    }
}

/// A flush begins with the lowest scanout that shows the resource. Resource 0 is flushed without
/// doing anything, and one that there is not is refused.
pub proof fn law_flush_begins(gpu: GpuView, resource_id: u32, rect: Rect, armed: bool)
    ensures
        ({
            let (after, step) = gpu.flush_resource(resource_id, rect, armed);
            &&& resource_id == 0 ==> step == StepView::Done(Ok(GpuResponseView::OkNoData))
            &&& resource_id != 0 && !gpu.resources.contains_key(resource_id) ==> step
                == StepView::Done(Err(GpuResponseView::ErrInvalidResourceId))
            &&& resource_id != 0 && gpu.resources.contains_key(resource_id) ==> {
                let flush = Flush { resource_id, rect, resource: gpu.resources[resource_id], armed };
                match flush::next_enabled(gpu.resources[resource_id].scanouts, 0) {
                    Some(s) => (after, step) == gpu.begin_flush().flush_scanout(flush, s),
                    None => step == StepView::Done(Ok(GpuResponseView::OkNoData)),
                }
            }
            &&& gpu.present matches Some(p) ==> {
                &&& gpu.begin_flush().present matches Some(q)
                &&& q.flush_cookies.len() == 0
                &&& q.parked == p.parked && q.holds == p.holds && q.awaiting == p.awaiting
                    && q.next_cookie == p.next_cookie
            }
        }),
{
}

/// A surface of a resource that is no blob is brought up to date first and then shown, where the
/// guest flushed. Where it cannot be, it is given up and a frame is filled instead.
pub proof fn law_classic_surface_is_synced_then_shown(
    gpu: GpuView,
    f: Flush,
    s: u32,
    id: u32,
    e: RendererError,
)
    requires
        gpu.renderer,
        s < 16,
        gpu.scanouts.len() == 16,
        gpu.scanouts[s as int] matches Some(sc) && sc.iosurface_id == Some(id),
        f.resource.ctx_id == 0,
    ensures
        ({
            let (g, first) = gpu.flush_scanout(f, s);
            let (shown, second) = answered(g, first, ReplyView::Renderer(Ok(())));
            let (given_up, other) = answered(g, first, ReplyView::Renderer(Err(e)));
            &&& g == gpu
            &&& asked(first) == Some(Request::SyncSurface { resource_id: f.resource_id })
            &&& shown == gpu
            &&& asked(second) == Some(
                Request::PresentSurface { scanout_id: s, iosurface_id: id, rect: f.rect },
            )
            &&& asked(other) == Some(Request::AllocFrame { scanout_id: s })
            &&& given_up.scanouts[s as int] matches Some(sc)
            &&& sc.iosurface_id is None
        }),
{
}

/// A blob's surface is shown at once where frames do not wait. Where they do, the frame is parked
/// under a cookie of its own behind a fence on the present ring of the blob's context, and the
/// flush goes on; where the fence is refused the frame is not parked and is shown at once.
pub proof fn law_blob_frame_waits_for_its_fence(
    gpu: GpuView,
    f: Flush,
    s: u32,
    id: u32,
    e: RendererError,
)
    requires
        gpu.wf(),
        gpu.has_room(),
        s < 16,
        gpu.scanouts[s as int] matches Some(sc) && sc.iosurface_id == Some(id),
        f.resource.ctx_id != 0,
    ensures
        ({
            let (g, first) = gpu.flush_scanout(f, s);
            let show = Request::PresentSurface { scanout_id: s, iosurface_id: id, rect: f.rect };
            if f.armed && gpu.present is Some {
                let p = gpu.present.unwrap();
                let cookie = p.next_cookie as u64;
                &&& asked(first) matches Some(Request::CreateFence { fence })
                &&& fence.fence_id == cookie && fence.ctx_id == f.resource.ctx_id && fence.ring_idx
                    == 63 && fence.flags == 3
                &&& g.present matches Some(q)
                &&& q.parked == p.parked.insert(
                    cookie,
                    ParkedFlush {
                        scanout_id: s,
                        iosurface_id: id,
                        resource_id: f.resource_id,
                        rect: f.rect,
                    },
                )
                &&& q.flush_cookies == p.flush_cookies.push(cookie)
                &&& q.next_cookie == p.next_cookie + 1
                &&& answered(g, first, ReplyView::Renderer(Ok(()))) == g.flush_from(
                    f,
                    (s + 1) as u32,
                )
                &&& asked(answered(g, first, ReplyView::Renderer(Err(e))).1) == Some(show)
                &&& answered(g, first, ReplyView::Renderer(Err(e))).0.present matches Some(r)
                &&& r.parked == p.parked && r.flush_cookies == p.flush_cookies
            } else {
                g == gpu && asked(first) == Some(show)
            }
        }),
{
    if f.armed && gpu.present is Some {
        let p = gpu.present.unwrap();
        let (g, first) = gpu.flush_scanout(f, s);
        present::law_failed_park_leaves_nothing(p, GpuView::parked_frame(f, s, id));
        assert(1u32 | 2u32 == 3u32) by (bit_vector);
    }
}

/// The display's answer to a surface: it is shown and the next scanout follows; a display that
/// takes no surfaces gets a frame; any other refusal ends the flush.
pub proof fn law_surface_answers(gpu: GpuView, f: Flush, s: u32, id: u32, e: DisplayError)
    requires
        s < 16,
    ensures
        ({
            let step = GpuView::flush_surface(f, s, id);
            &&& answered(gpu, step, ReplyView::Display(Ok(()))) == gpu.flush_from(
                f,
                (s + 1) as u32,
            )
            &&& e == DisplayError::MethodNotSupported ==> asked(
                answered(gpu, step, ReplyView::Display(Err(e))).1,
            ) == Some(Request::AllocFrame { scanout_id: s })
            &&& e != DisplayError::MethodNotSupported ==> answered(
                gpu,
                step,
                ReplyView::Display(Err(e)),
            ) == (gpu, StepView::Done(Err(GpuResponseView::ErrUnspec)))
        }),
{
}

/// A frame is allocated, filled and shown, in that order, where the guest flushed; then the next
/// scanout follows. It is filled from the software picture where the resource has one, else from
/// the surface where the scanout has one, else by reading the resource back: as much of it as the
/// scanout shows, packed with four bytes to the pixel.
pub proof fn law_frames_are_filled_then_shown(gpu: GpuView, f: Flush, s: u32, e: DisplayError)
    requires
        gpu.renderer,
        s < 16,
        gpu.scanouts[s as int] matches Some(sc) && sc.width != 0 && sc.height != 0 && sc.width
            < 0x4000_0000,
    ensures
        ({
            let sc = gpu.scanouts[s as int].unwrap();
            let step = GpuView::flush_alloc(f, s);
            let (g, fill) = answered(gpu, step, ReplyView::Display(Ok(())));
            let (g2, show) = answered(g, fill, ReplyView::Done(true));
            let stride = (4 * sc.width) as u32;
            &&& asked(step) == Some(Request::AllocFrame { scanout_id: s })
            &&& g == gpu && g2 == gpu
            &&& asked(fill) == Some(
                if gpu.sw2d.contains_key(f.resource_id) {
                    Request::FillFromSoftware {
                        resource_id: f.resource_id,
                        src_w: f.resource.width,
                        scan_w: sc.width,
                        scan_h: sc.height,
                    }
                } else if sc.iosurface_id is Some {
                    Request::FillFromSurface {
                        resource_id: f.resource_id,
                        stride,
                        rows: sc.height,
                    }
                } else {
                    Request::FillFromResource {
                        resource_id: f.resource_id,
                        transfer: Transfer3D {
                            x: 0,
                            y: 0,
                            z: 0,
                            w: sc.width,
                            h: sc.height,
                            d: 1,
                            level: 0,
                            stride,
                            layer_stride: 0,
                            offset: 0,
                        },
                    }
                },
            )
            &&& asked(show) == Some(Request::PresentFrame { scanout_id: s, rect: f.rect })
            &&& answered(g2, show, ReplyView::Display(Ok(()))) == gpu.flush_from(
                f,
                (s + 1) as u32,
            )
            &&& answered(g, fill, ReplyView::Done(false)) == (
                gpu,
                StepView::Done(Err(GpuResponseView::ErrUnspec)),
            )
            &&& answered(gpu, step, ReplyView::Display(Err(e))) == (
                gpu,
                StepView::Done(Err(GpuResponseView::ErrDisplay(e))),
            )
            &&& answered(g2, show, ReplyView::Display(Err(e))) == (
                gpu,
                StepView::Done(Err(GpuResponseView::ErrDisplay(e))),
            )
        }),
{
}

/// What is read back for a parked frame that the display does not take as a surface: the scanout's
/// rows, four bytes to the pixel; nothing without a renderer or a size.
pub proof fn law_parked_frame_is_read_back_whole(gpu: GpuView, s: u32)
    requires
        gpu.wf(),
    ensures
        s < 16 && gpu.renderer && (gpu.scanouts[s as int] matches Some(sc) && sc.width != 0
            && sc.height != 0 && sc.width < 0x4000_0000) ==> gpu.deferred_readback(s) == Some(
            (
                (4 * gpu.scanouts[s as int].unwrap().width) as u32,
                gpu.scanouts[s as int].unwrap().height,
            ),
        ),
        !gpu.renderer || s >= 16 || gpu.scanouts[s as int] is None ==> gpu.deferred_readback(
            s,
        ) is None,
{
}

/// A parked frame is the one that was parked, under a cookie that no other has, and parking it
/// moves no other.
pub proof fn law_parked_frames_are_kept_apart(v: PresentView, frame: ParkedFlush, other: u64)
    requires
        v.wf(),
        v.next_cookie < u64::MAX,
        v.parked.contains_key(other),
    ensures
        other != v.next_cookie,
        v.park(frame).parked.contains_key(v.next_cookie as u64),
        v.park(frame).parked[v.next_cookie as u64] == frame,
        v.park(frame).parked[other] == v.parked[other],
        v.park(frame).flush_cookies.last() == v.next_cookie,
        v.park(frame).holds == v.holds,
        v.park(frame).awaiting == v.awaiting,
        v.unpark(other).holds == v.holds,
        !v.unpark(other).parked.contains_key(other),
{
}

/// A retired fence shows its own frame and no other. Each hold then waits for one frame less, and
/// where nothing confirms what is shown, for one confirmation less too; where the display
/// confirms, that surface is awaited behind those shown before.
pub proof fn law_retired_fence_shows_its_frame(v: PresentView, cookie: u64, other: u64, i: int)
    requires
        v.parked.contains_key(cookie),
        other != cookie,
        0 <= i < v.holds.len(),
    ensures
        ({
            let after = v.retire(cookie);
            let was = v.holds[i];
            let now_is = after.holds[i];
            &&& v.hits(seq![cookie]) == seq![v.parked[cookie]]
            &&& !after.parked.contains_key(cookie)
            &&& after.parked.contains_key(other) == v.parked.contains_key(other)
            &&& v.parked.contains_key(other) ==> after.parked[other] == v.parked[other]
            &&& after.holds.len() == v.holds.len()
            &&& now_is.fence == was.fence && now_is.created_at == was.created_at && now_is.fallback_at
                == was.fallback_at
            &&& !now_is.unpresented.contains(cookie)
            &&& now_is.unpresented.contains(other) == was.unpresented.contains(other)
            &&& v.acks ==> now_is.unconfirmed == was.unconfirmed
            &&& !v.acks ==> !now_is.unconfirmed.contains(cookie)
            &&& now_is.unconfirmed.contains(other) == was.unconfirmed.contains(other)
            &&& v.acks ==> after.awaiting == v.awaiting.push(
                (v.parked[cookie].iosurface_id, cookie),
            )
            &&& !v.acks ==> after.awaiting == v.awaiting
        }),
{
    reveal_with_fuel(PresentView::hits, 2);
    reveal_with_fuel(PresentView::retire_all, 2);
    let one = seq![cookie];
    assert(one.drop_last() =~= Seq::empty());
    assert(v.hits(one) =~= seq![v.parked[cookie]]);
}

/// A fence of a frame that is not parked shows nothing and changes nothing.
pub proof fn law_unknown_fence_shows_nothing(v: PresentView, cookie: u64)
    requires
        !v.parked.contains_key(cookie),
    ensures
        v.retire(cookie) == v,
        v.hits(seq![cookie]).len() == 0,
{
    reveal_with_fuel(PresentView::hits, 2);
    reveal_with_fuel(PresentView::retire_all, 2);
    let one = seq![cookie];
    assert(one.drop_last() =~= Seq::empty());
}

/// The first awaited frame of a surface: none before it is of that surface.
pub proof fn law_first_awaited_frame(awaiting: Seq<(u32, u64)>, id: u32, from: int, j: int)
    requires
        0 <= from <= j < awaiting.len(),
    ensures
        present::first_shown(awaiting, id, from) matches Some(k) ==> from <= k < awaiting.len()
            && awaiting[k].0 == id && (j < k ==> awaiting[j].0 != id),
        present::first_shown(awaiting, id, from) is None ==> awaiting[j].0 != id,
    decreases awaiting.len() - from,
{
    if awaiting[from].0 != id {
        if j > from {
            law_first_awaited_frame(awaiting, id, from + 1, j);
        } else if from + 1 < awaiting.len() {
            law_first_awaited_frame(awaiting, id, from + 1, from + 1);
        }
    }
}

/// The cookie is among these frames'.
pub open spec fn among(frames: Seq<(u32, u64)>, cookie: u64) -> bool {
    exists|j: int| 0 <= j < frames.len() && (#[trigger] frames[j]).1 == cookie
}

proof fn lemma_confirmed(h: HoldView, frames: Seq<(u32, u64)>, cookie: u64)
    ensures
        ({
            let after = present::confirm_all(h, frames);
            &&& after.unconfirmed.contains(cookie) == (h.unconfirmed.contains(cookie) && !among(
                frames,
                cookie,
            ))
            &&& after.unpresented == h.unpresented
            &&& after.fence == h.fence
            &&& after.created_at == h.created_at
            &&& after.fallback_at == h.fallback_at
        }),
    decreases frames.len(),
{
    if frames.len() > 0 {
        let short = frames.drop_last();
        lemma_confirmed(h, short, cookie);
        if among(short, cookie) {
            let j = choose|j: int| 0 <= j < short.len() && (#[trigger] short[j]).1 == cookie;
            assert(frames[j].1 == cookie);
        }
        if frames.last().1 == cookie {
            assert(frames[frames.len() - 1].1 == cookie);
        }
        if among(frames, cookie) && frames.last().1 != cookie {
            let j = choose|j: int| 0 <= j < frames.len() && (#[trigger] frames[j]).1 == cookie;
            assert(short[j].1 == cookie);
        }
    }
}

/// A surface on the display confirms its first awaited frame and all that were shown before it,
/// since the display shows in order; every hold hears of exactly those. A surface that nobody
/// awaits confirms nothing.
pub proof fn law_shown_surface_confirms(v: PresentView, id: u32, i: int, cookie: u64)
    requires
        0 <= i < v.holds.len(),
    ensures
        ({
            let after = v.shown(id);
            let was = v.holds[i];
            let now_is = after.holds[i];
            &&& after.parked == v.parked
            &&& after.holds.len() == v.holds.len()
            &&& now_is.fence == was.fence && now_is.unpresented == was.unpresented
            &&& match present::first_shown(v.awaiting, id, 0) {
                Some(k) => {
                    &&& after.awaiting == v.awaiting.skip(k + 1)
                    &&& now_is.unconfirmed.contains(cookie) == (was.unconfirmed.contains(cookie)
                        && !among(v.awaiting.take(k + 1), cookie))
                },
                None => after == v,
            }
        }),
{
    match present::first_shown(v.awaiting, id, 0) {
        Some(k) => {
            lemma_confirmed(v.holds[i], v.awaiting.take(k + 1), cookie);
        },
        None => {},
    }
}

/// A held fence whose frames are all confirmed completes, at once where the display confirms and
/// after the delay where it does not. One that only waits for confirmations is scheduled a hundred
/// and fifty milliseconds on, once; half a second after it was made it is held no longer.
pub proof fn law_when_a_held_fence_completes(h: HoldView, now: u64, acks: bool, delay: u64)
    requires
        h.created_at + 500_000_000 <= u64::MAX,
        now + 150_000_000 <= u64::MAX,
        now + delay <= u64::MAX,
    ensures
        now > h.created_at + 500_000_000 ==> h.settled(now, acks) is None && h.action(
            now,
            acks,
            delay,
        ) is None,
        now <= h.created_at + 500_000_000 ==> {
            &&& h.unconfirmed.is_empty() ==> h.settled(now, acks) is None && h.action(
                now,
                acks,
                delay,
            ) == Some(
                if acks {
                    HoldAction::Complete(h.fence)
                } else {
                    HoldAction::Latch((now + delay) as u64, h.fence)
                },
            )
            &&& !h.unconfirmed.is_empty() && h.fallback_at is None && acks
                && h.unpresented.is_empty() ==> {
                &&& h.action(now, acks, delay) == Some(
                    HoldAction::Latch((now + 150_000_000) as u64, h.fence),
                )
                &&& h.settled(now, acks) matches Some(k)
                &&& k.fallback_at == Some((now + 150_000_000) as u64)
                &&& k.fence == h.fence && k.unconfirmed == h.unconfirmed
                &&& k.action(now, acks, delay) is None
            }
            &&& !h.unconfirmed.is_empty() && h.fallback_at is None && !(acks
                && h.unpresented.is_empty()) ==> h.settled(now, acks) == Some(h) && h.action(
                now,
                acks,
                delay,
            ) is None
            &&& !h.unconfirmed.is_empty() && (h.fallback_at matches Some(t) && now <= t)
                ==> h.settled(now, acks) == Some(h) && h.action(now, acks, delay) is None
            &&& !h.unconfirmed.is_empty() && (h.fallback_at matches Some(t) && now > t)
                ==> h.settled(now, acks) is None && h.action(now, acks, delay) is None
        },
{
}

/// Every hold is looked at: what it asks for is asked for, and it is kept where it is to be kept.
pub proof fn law_every_hold_is_looked_at(v: PresentView, now: u64, n: nat, i: int)
    requires
        n <= v.holds.len(),
        0 <= i < n,
    ensures
        v.holds[i].action(now, v.acks, v.latch_delay_ns) matches Some(a) ==> v.hold_actions(
            now,
            n,
        ).contains(a),
        v.holds[i].settled(now, v.acks) matches Some(h) ==> v.holds_left(now, n).contains(h),
        v.hold_actions(now, n).len() <= n,
        v.holds_left(now, n).len() <= n,
    decreases n,
{
    let m = (n - 1) as nat;
    let actions = v.hold_actions(now, n);
    let left = v.holds_left(now, n);
    if i < m {
        law_every_hold_is_looked_at(v, now, m, i);
        let before = v.hold_actions(now, m);
        if let Some(a) = v.holds[i].action(now, v.acks, v.latch_delay_ns) {
            let j = choose|j: int| 0 <= j < before.len() && before[j] == a;
            assert(actions[j] == a);
        }
        let kept = v.holds_left(now, m);
        if let Some(h) = v.holds[i].settled(now, v.acks) {
            let j = choose|j: int| 0 <= j < kept.len() && kept[j] == h;
            assert(left[j] == h);
        }
    } else {
        lemma_no_more_than_holds(v, now, m);
        if let Some(a) = v.holds[i].action(now, v.acks, v.latch_delay_ns) {
            assert(actions.last() == a);
        }
        if let Some(h) = v.holds[i].settled(now, v.acks) {
            assert(left.last() == h);
        }
    }
}

proof fn lemma_no_more_than_holds(v: PresentView, now: u64, n: nat)
    requires
        n <= v.holds.len(),
    ensures
        v.hold_actions(now, n).len() <= n,
        v.holds_left(now, n).len() <= n,
    decreases n,
{
    if n > 0 {
        lemma_no_more_than_holds(v, now, (n - 1) as nat);
    }
}

/// Fences that retire in two rounds show what they would in one, in the same order, and so do the
/// surfaces that the display confirms.
pub proof fn law_rounds_go_in_order(v: PresentView, a: Seq<u64>, b: Seq<u64>, s: Seq<u32>, t: Seq<u32>)
    ensures
        v.retire_all(a + b) == v.retire_all(a).retire_all(b),
        v.hits(a + b) == v.hits(a) + v.retire_all(a).hits(b),
        v.shown_all(s + t) == v.shown_all(s).shown_all(t),
    decreases b.len() + t.len(),
{
    if b.len() > 0 {
        law_rounds_go_in_order(v, a, b.drop_last(), s, Seq::empty());
        assert((a + b).drop_last() =~= a + b.drop_last());
        assert(v.hits(a + b) =~= v.hits(a) + v.retire_all(a).hits(b));
    } else {
        assert(a + b =~= a);
        assert(v.hits(a) + v.retire_all(a).hits(b) =~= v.hits(a));
    }
    if t.len() > 0 {
        law_rounds_go_in_order(v, a, Seq::empty(), s, t.drop_last());
        assert((s + t).drop_last() =~= s + t.drop_last());
    } else {
        assert(s + t =~= s);
    }
}

/// A round of presents touches the frames and the held fences and nothing else of the device: the
/// fences retire first, then the display's confirmations count, then every hold is looked at.
pub proof fn law_present_round(gpu: GpuView, cookies: Seq<u64>, shown: Seq<u32>, now: u64)
    ensures
        ({
            let after = gpu.present_round(cookies, shown, now);
            &&& after == (GpuView { present: after.present, ..gpu })
            &&& gpu.present is None ==> after.present is None
            &&& gpu.present matches Some(p) ==> after.present == Some(
                p.retire_all(cookies).shown_all(shown).settle(now),
            )
        }),
{
}

/// The wait before a reset is classified outlasts the longest hold and the longest wait for a
/// confirmation behind it, and looks more than a hundred times.
pub proof fn law_reset_waits_for_every_hold()
    ensures
        crate::gpu::worker::CLASSIFY_DRAIN_NS >= present::HOLD_CEILING_NS
            + present::ACK_FALLBACK_NS,
        crate::gpu::worker::CLASSIFY_POLL_NS * 100 <= crate::gpu::worker::CLASSIFY_DRAIN_NS,
        crate::gpu::worker::SNAPSHOT_POLL_NS * 1000 <= crate::gpu::worker::SNAPSHOT_DRAIN_NS,
        present::ACK_FALLBACK_NS < present::HOLD_CEILING_NS,
{
}

/// A scanout that has no size of its own is filled with the whole of the resource.
pub proof fn law_unsized_scanouts_show_the_whole_resource(gpu: GpuView, f: Flush, s: u32)
    requires
        gpu.renderer,
        s < 16,
        gpu.scanouts[s as int] matches Some(sc) ==> (sc.width == 0 || sc.height == 0)
            && sc.iosurface_id is None,
        f.resource.width < 0x4000_0000,
    ensures
        ({
            let w = f.resource.width;
            let h = f.resource.height;
            let fill = answered(gpu, GpuView::flush_alloc(f, s), ReplyView::Display(Ok(()))).1;
            &&& gpu.scan_size(s, f.resource) == (w, h)
            &&& gpu.sw2d.contains_key(f.resource_id) ==> asked(fill) == Some(
                Request::FillFromSoftware {
                    resource_id: f.resource_id,
                    src_w: w,
                    scan_w: w,
                    scan_h: h,
                },
            )
            &&& !gpu.sw2d.contains_key(f.resource_id) ==> asked(fill) == Some(
                Request::FillFromResource {
                    resource_id: f.resource_id,
                    transfer: Transfer3D {
                        x: 0,
                        y: 0,
                        z: 0,
                        w,
                        h,
                        d: 1,
                        level: 0,
                        stride: (4 * w) as u32,
                        layer_stride: 0,
                        offset: 0,
                    },
                },
            )
        }),
{
}

} // verus!
