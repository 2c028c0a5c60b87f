//! What the guest is told, by whom, and what the device says of itself.
use crate::codec;
use crate::gpu::ack;
use crate::gpu::channels;
use crate::gpu::device;
use crate::gpu::fence;
use crate::gpu::fence::{RendererFence, VirtioGpuRing};
use crate::gpu::protocol::{DisplayError, GpuResponse, GpuResponseView, RendererError};
use crate::gpu::queue::Entry;
use crate::gpu::trace;
use crate::gpu::trace::GpuTraceStats;
use crate::gpu::virtio_gpu;
use crate::gpu::virtio_gpu::{FenceRoute, GpuView};
use crate::gpu::worker::{DisplayUpdate, Source, WakeCounts, WorkerFds};
use vstd::prelude::*;

verus! {

/// A fence without a ring of its own is on the device's ring; one with a ring is on that ring of
/// its context.
pub proof fn law_ring_of_a_fence(f: RendererFence)
    ensures
        f.flags & 2 == 0 ==> fence::ring_of(f) == VirtioGpuRing::Global,
        f.flags & 2 != 0 ==> fence::ring_of(f) == (VirtioGpuRing::ContextSpecific {
            ctx_id: f.ctx_id,
            ring_idx: f.ring_idx,
        }),
{
}

/// A fence is wanted behind a command exactly if the command says so and there is room for an
/// answer; it has the command's number, context and ring.
pub proof fn law_when_a_fence_is_wanted(e: Entry)
    ensures
        e.fence_spec() is Some <==> e.writable && e.hdr is Some && e.hdr.unwrap().flags & 1 != 0,
        e.fence_spec() matches Some(f) ==> {
            let h = e.hdr.unwrap();
            f.flags == h.flags && f.fence_id == h.fence_id && f.ctx_id == h.ctx_id && f.ring_idx
                == h.ring_idx
        },
{
}

/// Who completes a fence. Behind a flush that parked frames, a fence of the device's own ring is
/// held for those frames, half a second at most. A fence of a context's ring is the renderer's. One
/// of the device's own ring is the renderer's only where contexts of the GL renderer were seen,
/// and else counts as completed. Each is counted once, and nothing else changes.
pub proof fn law_who_completes_a_fence(gpu: GpuView, f: RendererFence, is_flush: bool, now: u64)
    requires
        now + 500_000_000 <= u64::MAX,
        gpu.journal.trace.fences_requested < u64::MAX,
    ensures
        ({
            let (after, route) = gpu.route_fence(f, is_flush, now);
            let own = f.flags & 2 == 0;
            let held = is_flush && own && (gpu.present matches Some(p) && p.flush_cookies.len()
                > 0);
            &&& after.journal.trace.fences_requested == gpu.journal.trace.fences_requested + 1
            &&& after.journal.entries == gpu.journal.entries
            &&& after.resources == gpu.resources && after.scanouts == gpu.scanouts && after.sw2d
                == gpu.sw2d && after.cursor == gpu.cursor
            &&& held ==> {
                &&& route == (FenceRoute::Held { deadline_ns: (now + 500_000_000) as u64 })
                &&& after.present matches Some(q)
                &&& q.flush_cookies.len() == 0
                &&& q.parked == gpu.present.unwrap().parked
                &&& q.holds.len() == gpu.present.unwrap().holds.len() + 1
                &&& q.holds.last().fence == f
                &&& q.holds.last().created_at == now
                &&& q.holds.last().fallback_at is None
                &&& forall|c: u64|
                    gpu.present.unwrap().flush_cookies.contains(c)
                        == #[trigger] q.holds.last().unpresented.contains(c)
                &&& q.holds.last().unconfirmed == q.holds.last().unpresented
            }
            &&& !held ==> after.present == gpu.present
            &&& !held && gpu.renderer && !own ==> route == FenceRoute::Renderer
            &&& !held && gpu.renderer && own && gpu.vrend_ctx_seen ==> route
                == FenceRoute::RendererOrSync
            &&& !held && (!gpu.renderer || (own && !gpu.vrend_ctx_seen)) ==> route
                == FenceRoute::Sync
        }),
{
}

/// Refusals are told apart by whether a context or a resource was unknown, to the device or to the
/// renderer, and each is counted once where it belongs. The first unknown context asks for a dump.
pub proof fn law_refusals_are_counted(s: GpuTraceStats, r: GpuResponse)
    requires
        s.unknown_ctx < u64::MAX,
        s.unknown_resource < u64::MAX,
        s.errors_other < u64::MAX,
    ensures
        ({
            let after = s.counted(trace::error_class(r));
            let ctx = r is ErrInvalidContextId || r == GpuResponse::ErrRutabaga(
                RendererError::InvalidContextId,
            );
            let res = r is ErrInvalidResourceId || r == GpuResponse::ErrRutabaga(
                RendererError::InvalidResourceId,
            );
            &&& after.unknown_ctx == s.unknown_ctx + (if ctx {
                1int
            } else {
                0
            })
            &&& after.unknown_resource == s.unknown_resource + (if res {
                1int
            } else {
                0
            })
            &&& after.errors_other == s.errors_other + (if ctx || res {
                0int
            } else {
                1
            })
            &&& after.dump_requested == (s.dump_requested || (ctx && s.unknown_ctx == 0))
            &&& after.submits == s.submits && after.fences_requested == s.fences_requested
                && after.fences_retired == s.fences_retired
        }),
{
}

/// An update of a display changes what it names of that display and nothing of the others; one for
/// a display that there is not changes nothing.
pub proof fn law_displays_are_updated(gpu: GpuView, u: DisplayUpdate, i: int)
    requires
        0 <= i < gpu.displays.len(),
    ensures
        ({
            let after = gpu.display_updated(u);
            let was = gpu.displays[i];
            let d = after.displays[i];
            &&& after.displays.len() == gpu.displays.len()
            &&& i != u.display_id ==> d == was
            &&& i == u.display_id ==> {
                &&& (d.width, d.height) == match u.size {
                    Some(wh) => wh,
                    None => (was.width, was.height),
                }
                &&& d.edid == match u.edid {
                    Some(p) => crate::display::DisplayInfoEdidView::Generated(p@),
                    None => was.edid,
                }
                &&& d.connected == match u.connected {
                    Some(c) => c,
                    None => was.connected,
                }
                &&& d.position == was.position
            }
            &&& after == (GpuView { displays: after.displays, ..gpu })
        }),
{
}

/// Each wake's event is counted once, where it belongs.
pub proof fn law_events_are_counted(w: WakeCounts, s: Source)
    requires
        w.control < u64::MAX,
        w.cursor < u64::MAX,
        w.present < u64::MAX,
        w.resize < u64::MAX,
        w.other < u64::MAX,
    ensures
        ({
            let a = w.plus(s);
            &&& a.control + a.cursor + a.present + a.resize + a.other == w.control + w.cursor
                + w.present + w.resize + w.other + 1
            &&& s == Source::Control ==> a.control == w.control + 1
            &&& s == Source::Cursor ==> a.cursor == w.cursor + 1
            &&& s == Source::Present ==> a.present == w.present + 1
            &&& s == Source::Resize ==> a.resize == w.resize + 1
            &&& s == Source::Stop || s == Source::RendererPoll || s == Source::Unknown ==> a.other
                == w.other + 1
            &&& a.wakes == w.wakes
        }),
{
}

/// A descriptor stands for what it was made for. One that is not there, which is negative, never
/// woke anybody.
pub proof fn law_descriptors_are_told_apart(f: WorkerFds, fd: i32)
    requires
        f.stop >= 0,
        f.control >= 0,
        f.cursor >= 0,
        f.resize >= 0,
        f.stop != f.control && f.stop != f.cursor && f.stop != f.resize && f.stop != f.present
            && f.stop != f.renderer_poll,
        f.control != f.cursor && f.control != f.resize && f.control != f.present && f.control
            != f.renderer_poll,
        f.cursor != f.resize && f.cursor != f.present && f.cursor != f.renderer_poll,
        f.resize != f.present && f.resize != f.renderer_poll,
        f.present >= 0 ==> f.present != f.renderer_poll,
    ensures
        f.source(fd) == Source::Stop <==> fd == f.stop,
        f.source(fd) == Source::Control <==> fd == f.control,
        f.source(fd) == Source::Cursor <==> fd == f.cursor,
        f.source(fd) == Source::Resize <==> fd == f.resize,
        f.source(fd) == Source::Present <==> fd >= 0 && fd == f.present,
        f.source(fd) == Source::RendererPoll <==> fd >= 0 && fd == f.renderer_poll,
{
}

/// A resource's uuid is twelve zeros and its number, high byte first: two resources never share
/// one.
pub proof fn law_uuids_are_resource_numbers(id: u32, i: int)
    requires
        0 <= i < 12,
    ensures
        ({
            let u = virtio_gpu::uuid_of(id);
            &&& u.len() == 16
            &&& u[i] == 0
            &&& 16777216 * u[12] + 65536 * u[13] + 256 * u[14] + u[15] == id
        }),
{
    let u = virtio_gpu::uuid_of(id);
    let a = ((id >> 24) & 0xff) as u8;
    let b = ((id >> 16) & 0xff) as u8;
    let c = ((id >> 8) & 0xff) as u8;
    let d = (id & 0xff) as u8;
    assert(16777216 * a + 65536 * b + 256 * c + d == id) by (bit_vector)
        requires
            a == ((id >> 24) & 0xff) as u8,
            b == ((id >> 16) & 0xff) as u8,
            c == ((id >> 8) & 0xff) as u8,
            d == (id & 0xff) as u8,
    ;
}

/// The capability sets on offer: the two of the GL renderer unless it is switched off, and the
/// Vulkan renderer's where it is switched on. No others.
pub proof fn law_capability_sets_on_offer(flags: u32)
    ensures
        virtio_gpu::capset_mask(flags) == (if flags & 0x80 == 0 {
            6int
        } else {
            0
        }) + (if flags & 0x40 != 0 {
            16int
        } else {
            0
        }),
{
    assert((1u64 << 4u32) == 16 && (1u64 << 1u32) | (1u64 << 2u32) == 6 && 16u64 | 6u64 == 22 && 0u64
        | 6u64 == 6 && 16u64 | 0u64 == 16 && 0u64 | 0u64 == 0) by (bit_vector);
}

/// The config space says how many scanouts there are, and that there are five capability sets, or
/// none without a renderer.
pub proof fn law_device_config(num_scanouts: u32, software_2d: bool)
    ensures
        ({
            let c = device::config_bytes(num_scanouts, software_2d);
            &&& c.len() == 16
            &&& codec::le_value(c.subrange(0, 4)) == 0
            &&& codec::le_value(c.subrange(4, 8)) == 0
            &&& codec::le_value(c.subrange(8, 12)) == num_scanouts
            &&& codec::le_value(c.subrange(12, 16)) == if software_2d {
                0nat
            } else {
                5
            }
        }),
{
    let n: u32 = if software_2d {
        0
    } else {
        5
    };
    codec::lemma_le_bounds();
    codec::lemma_le_bytes_len(0, 4);
    codec::lemma_le_bytes_len(num_scanouts as nat, 4);
    codec::lemma_le_bytes_len(n as nat, 4);
    codec::lemma_le_round_trip(0, 4);
    codec::lemma_le_round_trip(num_scanouts as nat, 4);
    codec::lemma_le_round_trip(n as nat, 4);
    let c = device::config_bytes(num_scanouts, software_2d);
    assert(c.subrange(0, 4) =~= codec::enc_u32(0));
    assert(c.subrange(4, 8) =~= codec::enc_u32(0));
    assert(c.subrange(8, 12) =~= codec::enc_u32(num_scanouts));
    assert(c.subrange(12, 16) =~= codec::enc_u32(n));
}

/// The features on offer, bit by bit: GL, EDID, uuids, blobs and context types with a renderer,
/// EDID and uuids without.
pub proof fn law_device_features()
    ensures
        device::AVAIL_FEATURES == 0x1_0000_0000 + 1 + 2 + 4 + 8 + 16,
        device::AVAIL_FEATURES_SOFTWARE_2D == 0x1_0000_0000 + 2 + 4,
{
    assert(0x1_0000_0000u64 | 1 | 2 | 4 | 8 | 16 == 0x1_0000_001fu64 && 0x1_0000_0000u64 | 2 | 4
        == 0x1_0000_0006u64) by (bit_vector);
}

/// A display without a cursor of its own is no failure; any other refusal is.
pub proof fn law_cursor_answers(e: DisplayError)
    ensures
        virtio_gpu::cursor_verdict(Ok(())) == Ok::<GpuResponseView, GpuResponseView>(
            GpuResponseView::OkNoData,
        ),
        virtio_gpu::cursor_verdict(Err(e)) is Ok <==> e == DisplayError::MethodNotSupported,
{
}

/// Digits write the number that they are read as: ten times what is in front, and the last.
pub proof fn law_digits(s: Seq<char>, c: char)
    ensures
        ack::digits_value(Seq::empty()) == Some(0nat),
        '0' <= c <= '9' ==> (ack::digits_value(s) matches Some(v) ==> ack::digits_value(s.push(c))
            == Some((10 * v + (c as u32 - 48)) as nat)),
        !('0' <= c <= '9') ==> ack::digits_value(s.push(c)) is None,
        ack::digits_value(s) is None ==> ack::digits_value(s.push(c)) is None,
{
    assert(s.push(c).drop_last() =~= s);
}

/// The letters are no white space.
pub open spec fn is_word(s: Seq<char>) -> bool {
    forall|i: int| 0 <= i < s.len() ==> !ack::blank(#[trigger] s[i])
}

proof fn lemma_run(s: Seq<char>, i: int, j: int, white: bool)
    requires
        0 <= i <= j <= s.len(),
        forall|k: int| i <= k < j ==> ack::blank(#[trigger] s[k]) == white,
        j < s.len() ==> ack::blank(s[j]) != white,
    ensures
        ack::run_end(s, i, white) == j,
    decreases j - i,
{
    if i < j {
        lemma_run(s, i + 1, j, white);
    }
}

/// A line of the display's is the word `shown`, a blank and the number of the surface. A line with
/// another word first confirms nothing.
pub proof fn law_confirmation_lines(word: Seq<char>, number: Seq<char>)
    requires
        word.len() > 0,
        number.len() > 0,
        is_word(word),
        is_word(number),
    ensures
        word == seq!['s', 'h', 'o', 'w', 'n'] ==> ack::shown_surface(word + seq![' '] + number)
            == ack::number(number),
        word != seq!['s', 'h', 'o', 'w', 'n'] ==> ack::shown_surface(word + seq![' '] + number)
            is None,
{
    let line = word + seq![' '] + number;
    let n = word.len() as int;
    assert forall|k: int| 0 <= k < n implies !ack::blank(#[trigger] line[k]) by {
        assert(line[k] == word[k]);
    }
    assert forall|k: int| n + 1 <= k < line.len() implies !ack::blank(#[trigger] line[k]) by {
        assert(line[k] == number[k - n - 1]);
    }
    assert(line[n] == ' ' && ack::blank(' '));
    lemma_run(line, 0, 0, true);
    lemma_run(line, 0, n, false);
    lemma_run(line, n, n + 1, true);
    lemma_run(line, n + 1, line.len() as int, false);
    assert(line.subrange(0, n) =~= word);
    assert(line.subrange(n + 1, line.len() as int) =~= number);
}

/// A number of the display's is its digits' value, where that fits, with or without a plus sign.
pub proof fn law_surface_numbers(digits: Seq<char>)
    requires
        digits.len() > 0,
        digits[0] != '+',
    ensures
        ack::number(digits) == match ack::digits_value(digits) {
            Some(v) => if v < 0x1_0000_0000 {
                Some(v as u32)
            } else {
                None
            },
            None => None,
        },
        ack::number(seq!['+'] + digits) == ack::number(digits),
        ack::number(Seq::empty()) is None,
{
    assert((seq!['+'] + digits).skip(1) =~= digits);
}

/// The sockets of the host's display servers: a local X display by the number behind its colon, a
/// Wayland display by its name in the runtime directory.
pub proof fn law_display_sockets(number: Seq<char>, dir: Seq<char>, name: Seq<char>, c: char)
    ensures
        channels::x11_socket(seq![':'] + number) == Some("/tmp/.X11-unix/X"@ + number),
        c != ':' ==> channels::x11_socket(seq![c] + number) is None,
        channels::x11_socket(Seq::empty()) is None,
        channels::wayland_socket(Some(dir), Some(name)) == dir + "/"@ + name,
        channels::wayland_socket(None, None) == "/run/user/1000"@ + "/"@ + "wayland-0"@,
{
    assert((seq![':'] + number).skip(1) =~= number);
}

/// PipeWire's directory is the first of the three that is set.
pub proof fn law_pipewire_directory(a: String, b: Option<String>, c: Option<String>)
    ensures
        channels::pipewire_dir(Some(a), b, c) == Some(a),
        channels::pipewire_dir(None, Some(a), c) == Some(a),
        channels::pipewire_dir(None, None, c) == c,
{
}

} // verus!
