//! What holds of the device's thread as a whole.
use crate::snd::protocol;
use crate::snd::protocol::VirtioSndPcmStatus;
use crate::snd::samples;
use crate::snd::worker;
use crate::snd::worker::{PcmEvent, SndAction, WorkerView};
use vstd::prelude::*;

verus! {

/// An action on the microphone.
pub open spec fn on_the_microphone(a: SndAction) -> bool {
    match a {
        SndAction::CreateCapture(_) => true,
        SndAction::StartCapture => true,
        SndAction::StopCapture => true,
        SndAction::ResetCapture => true,
        SndAction::DropCapture => true,
        SndAction::FlushRx => true,
        _ => false,
    }
}

/// Unless the microphone is enabled, no request touches it: no action is for it, and no buffer is
/// recorded into while there is no capturing unit.
pub proof fn law_microphone_stays_off(v: WorkerView, req: Seq<u8>, available: nat, writable: nat)
    requires
        !v.capture_enabled,
        !v.capture,
    ensures
        forall|i: int|
            0 <= i < v.control_answer(req).actions.len() ==> !on_the_microphone(
                #[trigger] v.control_answer(req).actions[i],
            ),
        !v.after_control(req).capture,
        !v.after_control(req).capture_enabled,
        v.rx_need(available, writable) is None,
{
}

/// A request that is not answered OK changes nothing, does nothing, and is not reported.
pub proof fn law_refused_request_moves_nothing(v: WorkerView, req: Seq<u8>)
    requires
        v.control_answer(req).response == worker::status_only(protocol::VIRTIO_SND_S_BAD_MSG)
            || v.control_answer(req).response == worker::status_only(
            protocol::VIRTIO_SND_S_NOT_SUPP,
        ),
    ensures
        v.after_control(req) == v,
        v.control_answer(req).actions.len() == 0,
        v.control_answer(req).report is None,
{
    crate::codec::lemma_le_bytes_len(protocol::VIRTIO_SND_S_OK as nat, 4);
    crate::codec::lemma_le_bytes_len(protocol::VIRTIO_SND_S_BAD_MSG as nat, 4);
    crate::codec::lemma_le_bytes_len(protocol::VIRTIO_SND_S_NOT_SUPP as nat, 4);
    let ok = worker::status_only(protocol::VIRTIO_SND_S_OK);
    let bad = worker::status_only(protocol::VIRTIO_SND_S_BAD_MSG);
    let unknown = worker::status_only(protocol::VIRTIO_SND_S_NOT_SUPP);
    assert(ok[0] == 0 && bad[0] == 1 && unknown[0] == 2) by {
        reveal_with_fuel(crate::codec::le_bytes, 2);
    }
    assert(v.control_answer(req).response[0] != ok[0]);
}

proof fn lemma_played_prefix(q: Seq<(u16, u64)>, consumed: u64, i: int)
    requires
        0 <= i <= worker::played(q, consumed),
        i < q.len(),
    ensures
        i < worker::played(q, consumed) ==> q[i].1 <= consumed,
        i == worker::played(q, consumed) ==> q[i].1 > consumed,
    decreases q.len(),
{
    if q[0].1 <= consumed && i > 0 {
        lemma_played_prefix(q.skip(1), consumed, i - 1);
        assert(q.skip(1)[i - 1] == q[i]);
    }
}

proof fn lemma_played_within(q: Seq<(u16, u64)>, consumed: u64)
    ensures
        worker::played(q, consumed) <= q.len(),
    decreases q.len(),
{
    if q.len() > 0 {
        lemma_played_within(q.skip(1), consumed);
    }
}

/// Playback sets the pace: a buffer goes back exactly when all its frames were played.
pub proof fn law_buffers_go_back_when_played(v: WorkerView, consumed: u64, i: int)
    requires
        v.wf(),
        v.audio,
        0 <= i < v.in_flight.len(),
    ensures
        i < worker::played(v.in_flight, consumed) <==> v.in_flight[i].1 <= consumed,
        worker::played(v.in_flight, consumed) <= v.in_flight.len(),
{
    let n = worker::played(v.in_flight, consumed);
    lemma_played_within(v.in_flight, consumed);
    if i < n {
        lemma_played_prefix(v.in_flight, consumed, i);
    } else {
        lemma_played_prefix(v.in_flight, consumed, n as int);
    }
}

/// Every buffer comes back once: to look twice at how far playback got gives back what one look at
/// the later time would have, in the same order.
pub proof fn law_reaping_misses_nothing(v: WorkerView, first: u64, second: u64)
    requires
        v.wf(),
        v.audio,
        first <= second,
    ensures
        v.reaped(first).reaped(second).in_flight == v.reaped(second).in_flight,
        v.in_flight.take(worker::played(v.in_flight, first) as int) + v.reaped(
            first,
        ).in_flight.take(worker::played(v.reaped(first).in_flight, second) as int)
            == v.in_flight.take(worker::played(v.in_flight, second) as int),
{
    lemma_reap_twice(v.in_flight, first, second);
    let q = v.in_flight;
    let a = worker::played(q, first);
    let rest = q.skip(a as int);
    let b = worker::played(rest, second);
    lemma_played_within(q, first);
    lemma_played_within(rest, second);
    assert(rest.skip(b as int) =~= q.skip((a + b) as int));
    assert(q.take(a as int) + rest.take(b as int) =~= q.take((a + b) as int));
}

proof fn lemma_reap_twice(q: Seq<(u16, u64)>, first: u64, second: u64)
    requires
        first <= second,
    ensures
        worker::played(q, first) + worker::played(
            q.skip(worker::played(q, first) as int),
            second,
        ) == worker::played(q, second),
    decreases q.len(),
{
    if q.len() == 0 || q[0].1 > first {
        assert(q.skip(0) =~= q);
    } else {
        lemma_reap_twice(q.skip(1), first, second);
        let n = worker::played(q.skip(1), first);
        lemma_played_within(q.skip(1), first);
        assert(q.skip(1).skip(n as int) =~= q.skip(1 + n as int));
    }
}

/// Preparing and releasing the playback stream leave no buffer behind: each one in flight is given
/// back, once, and the guest is told.
pub proof fn law_no_buffer_is_left_behind(v: WorkerView, event: PcmEvent, i: int)
    requires
        event == PcmEvent::Prepare || event == PcmEvent::Release,
        0 <= i < v.in_flight.len(),
    ensures
        v.output_moved(event).in_flight.len() == 0,
        v.output_moved(event).submitted == 0,
        v.output_actions(event).contains(SndAction::Complete(v.in_flight[i].0)),
        v.output_actions(event).contains(SndAction::SignalUsed),
{
    let q = v.in_flight;
    let front = if v.audio {
        1int
    } else {
        0
    };
    let actions = v.output_actions(event);
    assert(worker::completes(q)[i] == SndAction::Complete(q[i].0));
    assert(worker::completes(q)[q.len() as int] == SndAction::SignalUsed);
    assert(actions[front + i] == SndAction::Complete(q[i].0));
    assert(actions[front + q.len()] == SndAction::SignalUsed);
}

/// A buffer that was recorded into is filled to its last byte, so that its status lies where the
/// guest looks for it.
pub proof fn law_recording_fills_the_buffer(v: WorkerView, s: Seq<i16>, available: nat, writable: nat)
    requires
        v.rx_need(available, writable) == Some(s.len()),
    ensures
        2 * s.len() <= worker::pcm_room(writable),
        s.len() <= available,
        worker::recorded(s, writable).len() == writable,
        worker::recorded(s, writable).skip(worker::pcm_room(writable) as int)
            == (VirtioSndPcmStatus { status: protocol::VIRTIO_SND_S_OK, latency_bytes: 0 }).bytes(),
        samples::decoded(worker::recorded(s, writable)).take(s.len() as int) == s,
{
    let bpf = v.capture_params.frame_bytes() as int;
    let room = worker::pcm_room(writable) as int;
    assert(2 * (room / bpf * (bpf / 2)) <= room) by (nonlinear_arith)
        requires
            bpf >= 2,
            room >= 0,
    ;
    crate::codec::lemma_le_bytes_len(protocol::VIRTIO_SND_S_OK as nat, 4);
    crate::codec::lemma_le_bytes_len(0, 4);
    let r = worker::recorded(s, writable);
    let status = VirtioSndPcmStatus { status: protocol::VIRTIO_SND_S_OK, latency_bytes: 0 };
    assert(status.bytes().len() == 8);
    if writable < 8 {
        assert(room / bpf == 0) by (nonlinear_arith)
            requires
                room == 0,
                bpf >= 2,
        ;
    }
    assert(r.skip(room) =~= status.bytes());
    samples::law_samples_round_trip(s, Seq::empty());
    assert(samples::decoded(r).take(s.len() as int) =~= s) by {
        assert forall|i: int| 0 <= i < s.len() implies #[trigger] samples::decoded(r)[i]
            == s[i] by {
            assert(r[2 * i] == samples::encoded(s)[2 * i]);
            assert(r[2 * i + 1] == samples::encoded(s)[2 * i + 1]);
            assert(samples::decoded(samples::encoded(s))[i] == s[i]);
        }
    }
}

} // verus!
