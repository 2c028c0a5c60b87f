//! What becomes of the guest's buffers, and what each control request does.
use crate::codec;
use crate::snd::protocol;
use crate::snd::protocol::{VirtioSndPcmHdr, VirtioSndPcmSetParams, VirtioSndQueryInfo};
use crate::snd::worker;
use crate::snd::worker::{PcmEvent, SndAction, StreamParams, WorkerView};
use vstd::prelude::*;

verus! {

/// The playback buffers that the actions give back, in order.
pub open spec fn given_back(actions: Seq<SndAction>) -> Seq<u16>
    decreases actions.len(),
{
    if actions.len() == 0 {
        Seq::empty()
    } else {
        let before = given_back(actions.drop_last());
        match actions.last() {
            SndAction::Complete(index) => before.push(index),
            _ => before,
        }
    }
}

/// The buffers of a row, in order.
pub open spec fn indexes(q: Seq<(u16, u64)>) -> Seq<u16> {
    q.map_values(|b: (u16, u64)| b.0)
}

proof fn lemma_given_back_joins(a: Seq<SndAction>, b: Seq<SndAction>)
    ensures
        given_back(a + b) == given_back(a) + given_back(b),
    decreases b.len(),
{
    if b.len() == 0 {
        assert(a + b =~= a);
        assert(given_back(a) + given_back(b) =~= given_back(a));
    } else {
        lemma_given_back_joins(a, b.drop_last());
        assert((a + b).drop_last() =~= a + b.drop_last());
        assert((a + b).last() == b.last());
        assert(given_back(a + b) =~= given_back(a) + given_back(b));
    }
}

proof fn lemma_one_action(a: SndAction)
    requires
        !(a is Complete),
    ensures
        given_back(seq![a]) == Seq::<u16>::empty(),
{
    reveal_with_fuel(given_back, 2);
    assert(seq![a].drop_last() =~= Seq::empty());
    assert(seq![a].last() == a);
}

proof fn lemma_completes(q: Seq<(u16, u64)>)
    ensures
        given_back(worker::completes(q)) == indexes(q),
        q.len() > 0 ==> worker::completes(q).last() == SndAction::SignalUsed,
    decreases q.len(),
{
    let each = Seq::new(q.len(), |i: int| SndAction::Complete(q[i].0));
    lemma_each(q);
    if q.len() > 0 {
        lemma_given_back_joins(each, seq![SndAction::SignalUsed]);
        lemma_one_action(SndAction::SignalUsed);
        assert(given_back(worker::completes(q)) =~= indexes(q));
    } else {
        assert(worker::completes(q) =~= each);
    }
}

proof fn lemma_each(q: Seq<(u16, u64)>)
    ensures
        given_back(Seq::new(q.len(), |i: int| SndAction::Complete(q[i].0))) == indexes(q),
    decreases q.len(),
{
    let each = Seq::new(q.len(), |i: int| SndAction::Complete(q[i].0));
    if q.len() > 0 {
        let short = q.drop_last();
        lemma_each(short);
        assert(each.drop_last() =~= Seq::new(
            short.len(),
            |i: int| SndAction::Complete(short[i].0),
        ));
        assert(given_back(each) =~= indexes(short).push(q.last().0));
        assert(indexes(q) =~= indexes(short).push(q.last().0));
    } else {
        assert(indexes(q) =~= Seq::empty());
    }
}

proof fn lemma_only_if(there: bool, a: SndAction)
    requires
        !(a is Complete),
    ensures
        given_back(worker::only_if(there, a)) == Seq::<u16>::empty(),
{
    lemma_one_action(a);
}

/// Whatever the guest asks, no playback buffer is lost and none goes back twice: each one in
/// flight is given back, in order, or is still in flight afterwards. Where one goes back the guest
/// is told, behind the last of them.
pub proof fn law_control_loses_no_buffer(v: WorkerView, req: Seq<u8>)
    ensures
        ({
            let actions = v.control_answer(req).actions;
            let after = v.after_control(req);
            &&& given_back(actions) + indexes(after.in_flight) == indexes(v.in_flight)
            &&& after.in_flight == v.in_flight || after.in_flight.len() == 0
            &&& given_back(actions).len() > 0 ==> actions.contains(SndAction::SignalUsed)
            &&& after.in_flight == v.in_flight && v.in_flight.len() > 0 ==> after.submitted
                == v.submitted
        }),
{
    let actions = v.control_answer(req).actions;
    let after = v.after_control(req);
    if actions.len() == 0 {
        assert(given_back(actions) + indexes(after.in_flight) =~= indexes(v.in_flight));
    } else {
        let id = VirtioSndPcmHdr::of(req).stream_id;
        let event = worker::event_of(protocol::VirtioSndHdr::of(req).unwrap().code).unwrap();
        if id == 0 {
            law_move_loses_no_buffer(v, event);
        } else {
            lemma_capture_gives_nothing_back(v, event);
            assert(given_back(actions) + indexes(after.in_flight) =~= indexes(v.in_flight));
        }
    }
}

/// However the guest moves the playback stream, each buffer in flight is given back or stays.
pub proof fn law_move_loses_no_buffer(v: WorkerView, event: PcmEvent)
    ensures
        ({
            let actions = v.output_actions(event);
            let after = v.output_moved(event);
            &&& given_back(actions) + indexes(after.in_flight) == indexes(v.in_flight)
            &&& given_back(actions).len() > 0 ==> actions.contains(SndAction::SignalUsed)
            &&& event is Prepare || event is Release ==> after.in_flight.len() == 0
                && after.submitted == 0
            &&& event is Start || event is Stop ==> after.in_flight == v.in_flight
                && after.submitted == v.submitted
        }),
{
    let q = v.in_flight;
    let actions = v.output_actions(event);
    lemma_completes(q);
    assert(indexes(Seq::empty()) =~= Seq::empty());
    match event {
        PcmEvent::Prepare => {
            let front = worker::only_if(v.audio, SndAction::StopOutput);
            let last = actions.last();
            lemma_only_if(v.audio, SndAction::StopOutput);
            lemma_one_action(last);
            lemma_given_back_joins(front, worker::completes(q));
            lemma_given_back_joins(front + worker::completes(q), seq![last]);
            assert(actions =~= front + worker::completes(q) + seq![last]);
            assert(given_back(actions) + indexes(Seq::empty()) =~= indexes(q));
            if q.len() > 0 {
                assert(actions[(front.len() + q.len()) as int] == SndAction::SignalUsed);
            }
        },
        PcmEvent::Release => {
            let front = worker::only_if(v.audio, SndAction::DropOutput);
            lemma_only_if(v.audio, SndAction::DropOutput);
            lemma_given_back_joins(front, worker::completes(q));
            assert(given_back(actions) + indexes(Seq::empty()) =~= indexes(q));
            if q.len() > 0 {
                assert(actions[(front.len() + q.len()) as int] == SndAction::SignalUsed);
            }
        },
        PcmEvent::Start => {
            lemma_only_if(v.audio, SndAction::StartOutput);
            assert(given_back(actions) + indexes(q) =~= indexes(q));
        },
        PcmEvent::Stop => {
            lemma_only_if(v.audio, SndAction::StopOutput);
            assert(given_back(actions) + indexes(q) =~= indexes(q));
        },
    }
}

proof fn lemma_capture_gives_nothing_back(v: WorkerView, event: PcmEvent)
    ensures
        given_back(v.capture_actions(event)) == Seq::<u16>::empty(),
{
    let actions = v.capture_actions(event);
    lemma_one_action(SndAction::FlushRx);
    match event {
        PcmEvent::Prepare => {
            if v.capture {
                lemma_one_action(SndAction::StopCapture);
                lemma_one_action(SndAction::ResetCapture);
                lemma_given_back_joins(
                    seq![SndAction::StopCapture],
                    seq![SndAction::ResetCapture],
                );
                assert(actions =~= seq![SndAction::StopCapture] + seq![SndAction::ResetCapture]);
            } else {
                lemma_one_action(actions[0]);
                assert(actions =~= seq![actions[0]]);
            }
        },
        PcmEvent::Start => {
            lemma_only_if(v.capture, SndAction::StartCapture);
        },
        PcmEvent::Stop => {
            lemma_only_if(v.capture, SndAction::StopCapture);
            lemma_given_back_joins(
                worker::only_if(v.capture, SndAction::StopCapture),
                seq![SndAction::FlushRx],
            );
        },
        PcmEvent::Release => {
            lemma_only_if(v.capture, SndAction::DropCapture);
            lemma_given_back_joins(
                worker::only_if(v.capture, SndAction::DropCapture),
                seq![SndAction::FlushRx],
            );
        },
    }
}

/// Playback gives buffers back in the order in which they came, and what it does not give back
/// stays in flight.
pub proof fn law_reaping_loses_no_buffer(v: WorkerView, consumed: u64)
    requires
        v.wf(),
    ensures
        given_back(v.reap_actions(consumed)) + indexes(v.reaped(consumed).in_flight) == indexes(
            v.in_flight,
        ),
        given_back(v.reap_actions(consumed)).len() > 0 ==> v.reap_actions(consumed).last()
            == SndAction::SignalUsed,
        v.reaped(consumed) == (WorkerView {
            in_flight: v.reaped(consumed).in_flight,
            ..v
        }),
{
    if v.audio {
        let n = worker::played(v.in_flight, consumed) as int;
        lemma_played_within(v.in_flight, consumed);
        lemma_completes(v.in_flight.take(n));
        assert(indexes(v.in_flight.take(n)) + indexes(v.in_flight.skip(n)) =~= indexes(
            v.in_flight,
        ));
    } else {
        assert(given_back(Seq::empty()) + indexes(v.in_flight) =~= indexes(v.in_flight));
    }
}

proof fn lemma_played_within(q: Seq<(u16, u64)>, consumed: u64)
    ensures
        worker::played(q, consumed) <= q.len(),
    decreases q.len(),
{
    if q.len() > 0 {
        lemma_played_within(q.skip(1), consumed);
    }
}

/// A playback buffer has as many frames as fit whole into what follows its header, at two bytes
/// for each channel. With a unit to play it, it joins the row of buffers in flight at its end, to
/// go back behind all the frames that were taken with it.
pub proof fn law_taken_buffer_waits_its_turn(v: WorkerView, index: u16, readable: Seq<u8>)
    requires
        v.submitted + readable.len() <= u64::MAX,
    ensures
        ({
            let frames = v.tx_frames(readable);
            let each = if v.params.channels == 0 {
                4nat
            } else {
                2 * v.params.channels as nat
            };
            let bytes = if readable.len() < 4 {
                0
            } else {
                readable.len() - 4
            };
            let after = v.after_tx(index, readable);
            &&& frames * each <= bytes < (frames + 1) * each
            &&& after.submitted == v.submitted + frames
            &&& v.audio ==> after.in_flight == v.in_flight.push(
                (index, (v.submitted + frames) as u64),
            )
            &&& !v.audio ==> after.in_flight.len() == 0
            &&& after == (WorkerView {
                submitted: after.submitted,
                in_flight: after.in_flight,
                audibility: after.audibility,
                ..v
            })
        }),
{
    let each = v.params.frame_bytes() as int;
    let p = protocol::VirtioSndPcmXfer::payload(readable);
    let n = p.len() as int;
    assert(n / each * each <= n < (n / each + 1) * each && 0 <= n / each <= n) by (nonlinear_arith)
        requires
            n >= 0,
            each >= 1,
    ;
}

/// The samples of a playback buffer are those behind its header, two bytes each with the low one
/// first, as many as its frames have channels.
pub proof fn law_samples_of_a_buffer(v: WorkerView, readable: Seq<u8>, i: int)
    requires
        0 <= i < v.tx_samples(readable).len(),
    ensures
        ({
            let s = v.tx_samples(readable);
            let channels = if v.params.channels == 0 {
                2nat
            } else {
                v.params.channels as nat
            };
            let word = readable[4 + 2 * i] + 256 * readable[5 + 2 * i];
            &&& s.len() == v.tx_frames(readable) * channels
            &&& 5 + 2 * i < readable.len()
            &&& s[i] == word || s[i] == word - 65536
        }),
{
    let each = v.params.frame_bytes() as int;
    let channels = each / 2;
    let p = protocol::VirtioSndPcmXfer::payload(readable);
    let n = p.len() as int;
    let frames = n / each;
    assert(frames * each == 2 * (frames * channels)) by (nonlinear_arith)
        requires
            each == 2 * channels,
    ;
    assert(0 <= frames * each <= n) by (nonlinear_arith)
        requires
            n >= 0,
            each >= 1,
            frames == n / each,
    ;
    assert((2 * (frames * channels)) / 2 == frames * channels);
    assert(worker::pcm_of(readable, each as nat)[2 * i] == readable[4 + 2 * i]);
    assert(worker::pcm_of(readable, each as nat)[2 * i + 1] == readable[5 + 2 * i]);
}

/// What the guest gets with a playback buffer: that it went well, and how many bytes the host
/// still owes behind what was played, as many as its frames take and no more than can be said.
pub proof fn law_status_of_a_buffer(v: WorkerView)
    ensures
        ({
            let each = if v.params.channels == 0 {
                4int
            } else {
                2 * v.params.channels as int
            };
            let owed = v.host_latency_frames * each;
            let s = v.tx_status();
            &&& s.len() == 8
            &&& s[0] == 0 && s[1] == 0x80 && s[2] == 0 && s[3] == 0
            &&& s[4] + 256 * s[5] + 65536 * s[6] + 16777216 * s[7] == if owed > 0xffff_ffff {
                0xffff_ffff
            } else {
                owed
            }
        }),
{
    let each = v.params.frame_bytes() as int;
    let owed = v.host_latency_frames * each;
    let n = if owed > 0xffff_ffff {
        0xffff_ffffu32
    } else {
        owed as u32
    };
    assert(owed >= 0) by (nonlinear_arith)
        requires
            owed == v.host_latency_frames * each,
            each >= 0,
    ;
    codec::law_u32_bytes(0x8000);
    codec::law_u32_bytes(n);
    codec::lemma_le_bytes_len(0x8000, 4);
    codec::lemma_le_bytes_len(n as nat, 4);
    let s = v.tx_status();
    assert(s =~= codec::enc_u32(0x8000) + codec::enc_u32(n));
}

/// What the units do as the guest moves the playback stream: it starts and stops the unit that
/// there is; preparing stops and clears it, or makes one with the channels that the guest chose;
/// releasing takes it down. Without a unit nothing is started, stopped or taken down.
pub proof fn law_playback_unit_follows_the_guest(v: WorkerView)
    ensures
        v.output_actions(PcmEvent::Start) == (if v.audio {
            seq![SndAction::StartOutput]
        } else {
            Seq::empty()
        }),
        v.output_actions(PcmEvent::Stop) == (if v.audio {
            seq![SndAction::StopOutput]
        } else {
            Seq::empty()
        }),
        v.audio ==> v.output_actions(PcmEvent::Prepare).first() == SndAction::StopOutput,
        v.audio ==> v.output_actions(PcmEvent::Prepare).last() == SndAction::ResetOutput,
        !v.audio ==> v.output_actions(PcmEvent::Prepare).last() == SndAction::CreateOutput(
            if v.params.channels == 0 {
                2
            } else {
                v.params.channels
            },
        ),
        v.audio ==> v.output_actions(PcmEvent::Release).first() == SndAction::DropOutput,
        !v.audio ==> !v.output_actions(PcmEvent::Release).contains(SndAction::DropOutput),
        !v.output_moved(PcmEvent::Release).audio,
        v.output_moved(PcmEvent::Prepare).audio == v.audio,
        v.output_moved(PcmEvent::Start).audio == v.audio,
        v.output_moved(PcmEvent::Stop).audio == v.audio,
{
    if !v.audio {
        assert(v.output_actions(PcmEvent::Release) =~= worker::completes(v.in_flight));
    }
}

/// What the units do as the guest moves the microphone: stopping and releasing it give every
/// buffer back, behind the unit's end, and releasing takes the unit down.
pub proof fn law_capture_unit_follows_the_guest(v: WorkerView)
    ensures
        v.capture_actions(PcmEvent::Start) == (if v.capture {
            seq![SndAction::StartCapture]
        } else {
            Seq::empty()
        }),
        v.capture_actions(PcmEvent::Stop).last() == SndAction::FlushRx,
        v.capture_actions(PcmEvent::Release).last() == SndAction::FlushRx,
        v.capture ==> v.capture_actions(PcmEvent::Stop).first() == SndAction::StopCapture,
        v.capture ==> v.capture_actions(PcmEvent::Release).first() == SndAction::DropCapture,
        !v.capture ==> v.capture_actions(PcmEvent::Stop).len() == 1,
        !v.capture ==> v.capture_actions(PcmEvent::Release).len() == 1,
        v.capture ==> v.capture_actions(PcmEvent::Prepare) == seq![
            SndAction::StopCapture,
            SndAction::ResetCapture,
        ],
        !v.capture ==> v.capture_actions(PcmEvent::Prepare) == seq![
            SndAction::CreateCapture(
                if v.capture_params.channels == 0 {
                    1
                } else {
                    v.capture_params.channels
                },
            ),
        ],
        !v.capture_moved(PcmEvent::Release).capture,
        v.capture_moved(PcmEvent::Prepare) == v,
        v.capture_moved(PcmEvent::Start) == v,
        v.capture_moved(PcmEvent::Stop) == v,
        v.capture_moved(PcmEvent::Release) == (WorkerView { capture: false, ..v }),
{
}

/// The number in four bytes, low byte first.
pub open spec fn number(b: Seq<u8>, at: int) -> int {
    b[at] + 256 * b[at + 1] + 65536 * b[at + 2] + 16777216 * b[at + 3]
}

proof fn lemma_number(b: Seq<u8>, at: int)
    requires
        0 <= at,
        at + 4 <= b.len(),
    ensures
        protocol::u32_of(b, at) == number(b, at),
{
    reveal_with_fuel(codec::le_value, 5);
    let f = b.subrange(at, at + 4);
    assert(f.skip(1).skip(1).skip(1).skip(1) =~= Seq::empty());
}

/// A request that moves a stream moves the one that it names, as its code says: 0x102 prepares,
/// 0x103 releases, 0x104 starts, 0x105 stops. Stream 0 plays; stream 1 records, where that is
/// enabled. It is answered with OK and reported; any other stream is refused and not moved.
pub proof fn law_moves_are_carried_out(v: WorkerView, req: Seq<u8>)
    requires
        req.len() >= 8,
        0x102 <= number(req, 0) <= 0x105,
    ensures
        ({
            let code = number(req, 0);
            let stream = number(req, 4);
            let event = if code == 0x102 {
                PcmEvent::Prepare
            } else if code == 0x103 {
                PcmEvent::Release
            } else if code == 0x104 {
                PcmEvent::Start
            } else {
                PcmEvent::Stop
            };
            let answer = v.control_answer(req);
            &&& stream == 0 ==> answer.actions == v.output_actions(event) && v.after_control(req)
                == v.output_moved(event)
            &&& stream == 1 && v.capture_enabled ==> answer.actions == v.capture_actions(event)
                && v.after_control(req) == v.capture_moved(event)
            &&& stream == 0 || (stream == 1 && v.capture_enabled) ==> answer.response[0] == 0
                && answer.report is Some && answer.report.unwrap().stream_id == stream
                && answer.report.unwrap().event == event
            &&& stream > 1 || (stream == 1 && !v.capture_enabled) ==> answer.response[0] == 1
                && answer.report is None && answer.actions.len() == 0 && v.after_control(req) == v
        }),
{
    lemma_number(req, 0);
    lemma_number(req, 4);
    lemma_statuses();
}

proof fn lemma_statuses()
    ensures
        worker::status_only(0x8000)[0] == 0,
        worker::status_only(0x8001)[0] == 1,
        worker::status_only(0x8002)[0] == 2,
{
    codec::law_u32_bytes(0x8000);
    codec::law_u32_bytes(0x8001);
    codec::law_u32_bytes(0x8002);
}

/// A choice of parameters is kept for the stream that it names, field by field as the guest wrote
/// them, and touches nothing else.
pub proof fn law_parameters_are_kept(v: WorkerView, req: Seq<u8>)
    requires
        req.len() >= 24,
        number(req, 0) == 0x101,
    ensures
        ({
            let stream = number(req, 4);
            let after = v.after_control(req);
            let chosen = |p: StreamParams|
                {
                    &&& p.buffer_bytes == number(req, 8)
                    &&& p.period_bytes == number(req, 12)
                    &&& p.channels == req[20]
                    &&& p.format == req[21]
                    &&& p.rate == req[22]
                };
            &&& v.control_answer(req).actions.len() == 0
            &&& v.control_answer(req).report is None
            &&& stream == 0 ==> chosen(after.params) && after == (WorkerView {
                params: after.params,
                ..v
            })
            &&& stream == 1 && v.capture_enabled ==> chosen(after.capture_params) && after == (
            WorkerView { capture_params: after.capture_params, ..v })
            &&& stream > 1 || (stream == 1 && !v.capture_enabled) ==> after == v
            &&& v.control_answer(req).response[0] == if stream == 0 || (stream == 1
                && v.capture_enabled) {
                0u8
            } else {
                1u8
            }
        }),
{
    lemma_number(req, 0);
    lemma_number(req, 4);
    lemma_number(req, 8);
    lemma_number(req, 12);
    lemma_statuses();
}

/// A request of any other code is not supported, and one too short for a code is bad; neither does
/// anything.
pub proof fn law_unknown_requests(v: WorkerView, req: Seq<u8>)
    requires
        req.len() < 4 || !(number(req, 0) == 1 || 0x100 <= number(req, 0) <= 0x105 || number(req, 0)
            == 0x200),
    ensures
        v.after_control(req) == v,
        v.control_answer(req).actions.len() == 0,
        v.control_answer(req).report is None,
        v.control_answer(req).response[0] == if req.len() < 4 {
            1u8
        } else {
            2u8
        },
{
    if req.len() >= 4 {
        lemma_number(req, 0);
    }
    lemma_statuses();
}

/// A question for streams is answered with 32 bytes for each stream that was asked for and that
/// there is, the playback stream's first; one for channel maps with 24. Neither changes anything.
pub proof fn law_questions_are_answered(v: WorkerView, req: Seq<u8>)
    requires
        req.len() >= 16,
        number(req, 0) == 0x100 || number(req, 0) == 0x200,
    ensures
        ({
            let first = number(req, 4);
            let end = first + number(req, 8);
            let plays = first <= 0 < end;
            let records = first <= 1 < end && v.capture_enabled;
            let each = if number(req, 0) == 0x100 {
                32int
            } else {
                24
            };
            let r = v.control_answer(req).response;
            let at = if plays {
                4 + each
            } else {
                4
            };
            let kind = if number(req, 0) == 0x100 {
                24int
            } else {
                4
            };
            &&& v.after_control(req) == v
            &&& v.control_answer(req).actions.len() == 0
            &&& r[0] == 0
            &&& r.len() == 4 + (if plays {
                each
            } else {
                0
            }) + (if records {
                each
            } else {
                0
            })
            &&& plays ==> r[4 + kind] == 0 && r[5 + kind] == 2
            &&& records ==> r[at + kind] == 1 && r[at + kind + 1] == 1
        }),
{
    lemma_number(req, 0);
    lemma_number(req, 4);
    lemma_number(req, 8);
    lemma_statuses();
    lemma_streams_described(0, 2);
    lemma_streams_described(1, 1);
    lemma_maps_described(0, seq![3u8, 4u8]);
    lemma_maps_described(1, seq![2u8]);
    codec::lemma_le_bytes_len(0x8000, 4);
    let q = VirtioSndQueryInfo::of(req);
    assert(q.asks_for(0) == (number(req, 4) <= 0 < number(req, 4) + number(req, 8)));
    assert(q.asks_for(1) == (number(req, 4) <= 1 < number(req, 4) + number(req, 8)));
    let r = v.control_answer(req).response;
    if number(req, 0) == 0x100 {
        assert(r == v.listed(q, protocol::pcm_bytes(0, 2), protocol::pcm_bytes(1, 1)));
    } else {
        assert(r == v.listed(
            q,
            protocol::chmap_bytes(0, seq![3u8, 4u8]),
            protocol::chmap_bytes(1, seq![2u8]),
        ));
    }
}

/// A stream is described as signed 16-bit at 48 kHz, in its direction and on its channels, in 32
/// bytes: bit 5 of the formats and bit 7 of the rates, and zeros around them.
pub proof fn law_streams_are_described(direction: u8, channels: u8, i: int)
    requires
        0 <= i < 32,
    ensures
        protocol::pcm_bytes(direction, channels).len() == 32,
        protocol::pcm_bytes(direction, channels)[i] == if i == 8 {
            32u8
        } else if i == 16 {
            128u8
        } else if i == 24 {
            direction
        } else if i == 25 || i == 26 {
            channels
        } else {
            0u8
        },
{
    lemma_streams_described(direction, channels);
}

proof fn lemma_streams_described(direction: u8, channels: u8)
    ensures
        protocol::pcm_bytes(direction, channels).len() == 32,
        forall|i: int|
            0 <= i < 32 ==> #[trigger] protocol::pcm_bytes(direction, channels)[i] == if i == 8 {
                32u8
            } else if i == 16 {
                128u8
            } else if i == 24 {
                direction
            } else if i == 25 || i == 26 {
                channels
            } else {
                0u8
            },
{
    reveal_with_fuel(codec::le_bytes, 9);
    codec::lemma_le_bytes_len(0, 4);
    codec::lemma_le_bytes_len(32, 8);
    codec::lemma_le_bytes_len(128, 8);
    codec::lemma_le_bytes_len(direction as nat, 1);
    codec::lemma_le_bytes_len(channels as nat, 1);
}

/// A channel map says its direction, how many channels there are and where each of them is, in 24
/// bytes.
pub proof fn law_channel_maps(direction: u8, at: Seq<u8>, i: int)
    requires
        at.len() <= 18,
        0 <= i < 24,
    ensures
        protocol::chmap_bytes(direction, at).len() == 24,
        protocol::chmap_bytes(direction, at)[i] == if i < 4 {
            0u8
        } else if i == 4 {
            direction
        } else if i == 5 {
            at.len() as u8
        } else if i < 6 + at.len() {
            at[i - 6]
        } else {
            0u8
        },
{
    lemma_maps_described(direction, at);
}

proof fn lemma_maps_described(direction: u8, at: Seq<u8>)
    requires
        at.len() <= 18,
    ensures
        protocol::chmap_bytes(direction, at).len() == 24,
        forall|i: int|
            0 <= i < 24 ==> #[trigger] protocol::chmap_bytes(direction, at)[i] == if i < 4 {
                0u8
            } else if i == 4 {
                direction
            } else if i == 5 {
                at.len() as u8
            } else if i < 6 + at.len() {
                at[i - 6]
            } else {
                0u8
            },
{
    reveal_with_fuel(codec::le_bytes, 5);
    codec::lemma_le_bytes_len(0, 4);
    codec::lemma_le_bytes_len(direction as nat, 1);
    codec::lemma_le_bytes_len(at.len() as u8 as nat, 1);
}

/// A buffer to record into is filled, all at once, when the samples for it are there: as many
/// whole frames as its room has, at two bytes for each channel. It waits otherwise.
pub proof fn law_recording_waits_for_a_whole_buffer(v: WorkerView, available: nat, writable: nat)
    ensures
        ({
            let channels = if v.capture_params.channels == 0 {
                2nat
            } else {
                v.capture_params.channels as nat
            };
            let room = if writable < 8 {
                0nat
            } else {
                (writable - 8) as nat
            };
            match v.rx_need(available, writable) {
                Some(n) => {
                    &&& v.capture
                    &&& 0 < n <= available
                    &&& 2 * n <= room < 2 * n + 2 * channels
                    &&& n % channels == 0
                },
                None => {
                    ||| !v.capture
                    ||| room < 2 * channels
                    ||| 2 * available < room
                },
            }
        }),
{
    let channels: int = if v.capture_params.channels == 0 {
        2
    } else {
        v.capture_params.channels as int
    };
    let each = v.capture_params.frame_bytes();
    let room = worker::pcm_room(writable);
    assert(each == 2 * channels && each / 2 == channels);
    let frames = room / each;
    lemma_whole_frames(room as int, channels);
    assert(frames == room as int / (2 * channels));
    let n = frames * (each / 2);
    assert(n == (room as int / (2 * channels)) * channels);
    assert(v.rx_need(available, writable) == if !v.capture || frames == 0 || available < n {
        None
    } else {
        Some(n)
    });
}

proof fn lemma_whole_frames(room: int, channels: int)
    requires
        room >= 0,
        channels >= 1,
    ensures
        ({
            let frames = room / (2 * channels);
            let n = frames * channels;
            &&& frames >= 0
            &&& 0 <= 2 * n <= room < 2 * n + 2 * channels
            &&& n % channels == 0
            &&& frames == 0 ==> room < 2 * channels
            &&& frames > 0 ==> n > 0
        }),
{
    let each = 2 * channels;
    let frames = room / each;
    let n = frames * channels;
    vstd::arithmetic::div_mod::lemma_fundamental_div_mod(room, each);
    vstd::arithmetic::div_mod::lemma_mod_bound(room, each);
    vstd::arithmetic::div_mod::lemma_div_pos_is_pos(room, each);
    assert(each * frames == 2 * n) by (nonlinear_arith)
        requires
            each == 2 * channels,
            n == frames * channels,
    ;
    assert(frames > 0 ==> n > 0) by (nonlinear_arith)
        requires
            n == frames * channels,
            channels >= 1,
    ;
    assert(frames >= 0 ==> n >= 0) by (nonlinear_arith)
        requires
            n == frames * channels,
            channels >= 1,
    ;
    vstd::arithmetic::div_mod::lemma_mod_multiples_basic(frames, channels);
}

/// The host is asked for its latency at once, and then once a second at most; never without a
/// unit.
pub proof fn law_latency_is_asked_for(v: WorkerView, now: u64)
    ensures
        !v.audio ==> !v.latency_due(now),
        v.audio && v.host_latency_read_at is None ==> v.latency_due(now),
        v.audio && v.host_latency_read_at is Some ==> v.latency_due(now) == (now
            - v.host_latency_read_at.unwrap() >= 1_000_000_000),
{
}

} // verus!
