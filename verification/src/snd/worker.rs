//! The device's own thread: control requests, buffers to play, buffers to record into.
//!
//! What the host's audio units do is not done here: the worker says what is to be done with them,
//! in order, and is told how the making of one ended.
use crate::snd::audibility::{Audibility, AudibilityView, PcmAudibility};
use crate::snd::protocol;
use crate::snd::protocol::{
    capture_chmap_info, capture_pcm_info, output_chmap_info, output_pcm_info, VirtioSndHdr,
    VirtioSndPcmHdr, VirtioSndPcmSetParams, VirtioSndPcmStatus, VirtioSndPcmXfer, VirtioSndQueryInfo,
    PCM_STATUS_SIZE, VIRTIO_SND_CHMAP_FL, VIRTIO_SND_CHMAP_FR, VIRTIO_SND_CHMAP_MONO,
    VIRTIO_SND_D_INPUT, VIRTIO_SND_D_OUTPUT, VIRTIO_SND_R_CHMAP_INFO, VIRTIO_SND_R_JACK_INFO,
    VIRTIO_SND_R_PCM_INFO, VIRTIO_SND_R_PCM_PREPARE, VIRTIO_SND_R_PCM_RELEASE,
    VIRTIO_SND_R_PCM_SET_PARAMS, VIRTIO_SND_R_PCM_START, VIRTIO_SND_R_PCM_STOP,
    VIRTIO_SND_S_BAD_MSG, VIRTIO_SND_S_NOT_SUPP, VIRTIO_SND_S_OK,
};
use crate::codec::put_u32;
use crate::snd::samples;
use std::collections::VecDeque;
use vstd::prelude::*;

verus! {

/// The playback stream, which is always there.
pub const OUTPUT_STREAM_ID: u32 = 0;

/// The microphone, where it is enabled.
pub const CAPTURE_STREAM_ID: u32 = 1;

/// How long the host's latency is good for, in nanoseconds.
pub const LATENCY_REFRESH_NS: u64 = 1_000_000_000;

/// What the guest did with a stream.
#[derive(Clone, Copy, PartialEq, Eq, Structural, Debug)]
pub enum PcmEvent {
    Prepare,
    Start,
    Stop,
    Release,
}

/// A stream that the guest moved.
#[derive(Clone, Copy, PartialEq, Eq, Structural, Debug)]
pub struct PcmStreamState {
    pub stream_id: u32,
    pub event: PcmEvent,
}

/// The parameters that the guest chose for a stream.
#[derive(Clone, Copy, PartialEq, Eq, Structural, Debug)]
pub struct StreamParams {
    pub buffer_bytes: u32,
    pub period_bytes: u32,
    pub channels: u8,
    pub format: u8,
    pub rate: u8,
}

impl Default for StreamParams {
    fn default() -> (r: Self)
        ensures
            r == no_params(),
    {
        StreamParams { buffer_bytes: 0, period_bytes: 0, channels: 0, format: 0, rate: 0 }
    }
}

/// A stream of which the guest chose nothing yet.
pub open spec fn no_params() -> StreamParams {
    StreamParams { buffer_bytes: 0, period_bytes: 0, channels: 0, format: 0, rate: 0 }
}

impl StreamParams {
    /// How many bytes a frame takes: two for each channel, of which there are two until the guest
    /// chooses.
    pub open spec fn frame_bytes(self) -> nat {
        if self.channels == 0 {
            4
        } else {
            2 * self.channels as nat
        }
    }

    pub fn bytes_per_frame(&self) -> (r: usize)
        ensures
            r == self.frame_bytes(),
    {
        let channels: usize = if self.channels == 0 {
            2
        } else {
            self.channels as usize
        };
        channels * 2
    }
}

/// What is to be done, in the order in which it is listed.
#[derive(Clone, Copy, PartialEq, Eq, Structural, Debug)]
pub enum SndAction {
    /// Make a playback unit. How that ended is reported with `output_created`.
    CreateOutput(u8),
    StartOutput,
    StopOutput,
    ResetOutput,
    /// Stop the unit and take it down.
    DropOutput,
    /// Make a capturing unit. How that ended is reported with `capture_created`.
    CreateCapture(u8),
    StartCapture,
    StopCapture,
    ResetCapture,
    DropCapture,
    /// Give this playback buffer back to the guest.
    Complete(u16),
    /// Tell the guest that buffers came back.
    SignalUsed,
    /// Give every buffer to record into back to the guest, filled with silence.
    FlushRx,
}

/// How a control request is answered.
pub struct ControlAnswer {
    /// What the guest gets.
    pub response: Vec<u8>,
    /// What is to be done before the guest gets it.
    pub actions: Vec<SndAction>,
    /// The stream that was moved, to be reported to whoever wants to know.
    pub report: Option<PcmStreamState>,
}

#[verifier::ext_equal]
pub struct ControlView {
    pub response: Seq<u8>,
    pub actions: Seq<SndAction>,
    pub report: Option<PcmStreamState>,
}

impl View for ControlAnswer {
    type V = ControlView;

    open spec fn view(&self) -> ControlView {
        ControlView { response: self.response@, actions: self.actions@, report: self.report }
    }
}

/// A buffer that was taken to be played.
pub struct TxAnswer {
    /// How many frames it has.
    pub frames: usize,
    /// Its samples, for the playback unit.
    pub samples: Vec<i16>,
    /// The magnitude of its loudest sample, unless it has none.
    pub peak: Option<u16>,
    /// What is to be reported of its sound.
    pub edge: Option<PcmAudibility>,
    /// What the guest gets with it.
    pub status: Vec<u8>,
    pub actions: Vec<SndAction>,
}

pub struct SndWorker {
    capture_enabled: bool,
    params: StreamParams,
    capture_params: StreamParams,
    audio: bool,
    capture: bool,
    in_flight: VecDeque<(u16, u64)>,
    submitted: u64,
    host_latency_frames: u32,
    host_latency_read_at: Option<u64>,
    audibility: Option<Audibility>,
}

pub struct WorkerView {
    pub capture_enabled: bool,
    pub params: StreamParams,
    pub capture_params: StreamParams,
    /// There is a playback unit.
    pub audio: bool,
    /// There is a capturing unit.
    pub capture: bool,
    /// Playback buffers that the guest waits for, each with the count of frames behind which it
    /// is played.
    pub in_flight: Seq<(u16, u64)>,
    /// Frames taken since the stream was prepared.
    pub submitted: u64,
    /// Frames that the host still owes behind what was played.
    pub host_latency_frames: u32,
    pub host_latency_read_at: Option<u64>,
    pub audibility: Option<AudibilityView>,
}

impl View for SndWorker {
    type V = WorkerView;

    closed spec fn view(&self) -> WorkerView {
        WorkerView {
            capture_enabled: self.capture_enabled,
            params: self.params,
            capture_params: self.capture_params,
            audio: self.audio,
            capture: self.capture,
            in_flight: self.in_flight@,
            submitted: self.submitted,
            host_latency_frames: self.host_latency_frames,
            host_latency_read_at: self.host_latency_read_at,
            audibility: match self.audibility {
                Some(a) => Some(a@),
                None => None,
            },
        }
    }
}

/// How many buffers at the front are played once `consumed` frames are.
pub open spec fn played(q: Seq<(u16, u64)>, consumed: u64) -> nat
    decreases q.len(),
{
    if q.len() == 0 || q[0].1 > consumed {
        0
    } else {
        1 + played(q.skip(1), consumed)
    }
}

/// Giving these buffers back: each of them, and then the guest is told, if there was any.
pub open spec fn completes(q: Seq<(u16, u64)>) -> Seq<SndAction> {
    Seq::new(q.len(), |i: int| SndAction::Complete(q[i].0)) + (if q.len() > 0 {
        seq![SndAction::SignalUsed]
    } else {
        Seq::empty()
    })
}

/// One action, if there is a unit for it.
pub open spec fn only_if(there: bool, a: SndAction) -> Seq<SndAction> {
    if there {
        seq![a]
    } else {
        Seq::empty()
    }
}

/// What the request with this code does to a stream.
pub open spec fn event_of(code: u32) -> Option<PcmEvent> {
    if code == VIRTIO_SND_R_PCM_PREPARE {
        Some(PcmEvent::Prepare)
    } else if code == VIRTIO_SND_R_PCM_START {
        Some(PcmEvent::Start)
    } else if code == VIRTIO_SND_R_PCM_STOP {
        Some(PcmEvent::Stop)
    } else if code == VIRTIO_SND_R_PCM_RELEASE {
        Some(PcmEvent::Release)
    } else {
        None
    }
}

fn pcm_event(code: u32) -> (r: Option<PcmEvent>)
    ensures
        r == event_of(code),
{
    if code == VIRTIO_SND_R_PCM_PREPARE {
        Some(PcmEvent::Prepare)
    } else if code == VIRTIO_SND_R_PCM_START {
        Some(PcmEvent::Start)
    } else if code == VIRTIO_SND_R_PCM_STOP {
        Some(PcmEvent::Stop)
    } else if code == VIRTIO_SND_R_PCM_RELEASE {
        Some(PcmEvent::Release)
    } else {
        None
    }
}

/// A response of nothing but a status.
pub open spec fn status_only(code: u32) -> Seq<u8> {
    VirtioSndHdr { code }.bytes()
}

/// The samples of a buffer: its whole frames, behind the header.
pub open spec fn pcm_of(readable: Seq<u8>, bpf: nat) -> Seq<u8> {
    let p = VirtioSndPcmXfer::payload(readable);
    p.take((p.len() / bpf * bpf) as int)
}

/// How much of a buffer to record into takes samples: all but the status at its end.
pub open spec fn pcm_room(writable: nat) -> nat {
    if writable < PCM_STATUS_SIZE {
        0
    } else {
        (writable - PCM_STATUS_SIZE) as nat
    }
}

/// A buffer that was recorded into: its samples, zeros up to the status, and the status.
pub open spec fn recorded(s: Seq<i16>, writable: nat) -> Seq<u8> {
    samples::encoded(s) + Seq::new((pcm_room(writable) - 2 * s.len()) as nat, |i: int| 0u8)
        + VirtioSndPcmStatus { status: VIRTIO_SND_S_OK, latency_bytes: 0 }.bytes()
}

impl WorkerView {
    /// Buffers are played in the order in which they came, and none is due later than the last
    /// frame that was taken. A run of silence is no longer than what was taken.
    pub open spec fn wf(self) -> bool {
        &&& forall|i: int, j: int|
            0 <= i <= j < self.in_flight.len() ==> #[trigger] self.in_flight[i].1
                <= #[trigger] self.in_flight[j].1
        &&& forall|i: int|
            0 <= i < self.in_flight.len() ==> (#[trigger] self.in_flight[i]).1 <= self.submitted
        &&& self.audibility matches Some(a) ==> a.zero_frames <= self.submitted
    }

    /// Whether the guest can speak of this stream.
    pub open spec fn has_stream(self, id: u32) -> bool {
        id == OUTPUT_STREAM_ID || (id == CAPTURE_STREAM_ID && self.capture_enabled)
    }

    /// What a query is answered: OK, and each thing asked for that there is, the playback stream's
    /// first.
    pub open spec fn listed(self, q: VirtioSndQueryInfo, output: Seq<u8>, capture: Seq<u8>) -> Seq<
        u8,
    > {
        status_only(VIRTIO_SND_S_OK) + (if q.asks_for(OUTPUT_STREAM_ID) {
            output
        } else {
            Seq::empty()
        }) + (if q.asks_for(CAPTURE_STREAM_ID) && self.capture_enabled {
            capture
        } else {
            Seq::empty()
        })
    }

    /// The stream's audibility after the guest moved it.
    pub open spec fn unheard(self) -> Option<AudibilityView> {
        match self.audibility {
            Some(a) => Some(a.moved()),
            None => None,
        }
    }

    /// After the guest moved the playback stream.
    pub open spec fn output_moved(self, event: PcmEvent) -> Self {
        match event {
            PcmEvent::Prepare => WorkerView {
                in_flight: Seq::empty(),
                submitted: 0,
                audibility: self.unheard(),
                ..self
            },
            PcmEvent::Release => WorkerView {
                audio: false,
                in_flight: Seq::empty(),
                submitted: 0,
                audibility: self.unheard(),
                ..self
            },
            _ => WorkerView { audibility: self.unheard(), ..self },
        }
    }

    /// What is done when the guest moves the playback stream. Preparing it throws away what was
    /// not played, and gives those buffers back, before anything starts over.
    pub open spec fn output_actions(self, event: PcmEvent) -> Seq<SndAction> {
        match event {
            PcmEvent::Prepare => only_if(self.audio, SndAction::StopOutput) + completes(
                self.in_flight,
            ) + seq![
                if self.audio {
                    SndAction::ResetOutput
                } else {
                    SndAction::CreateOutput(
                        if self.params.channels == 0 {
                            2
                        } else {
                            self.params.channels
                        },
                    )
                },
            ],
            PcmEvent::Start => only_if(self.audio, SndAction::StartOutput),
            PcmEvent::Stop => only_if(self.audio, SndAction::StopOutput),
            PcmEvent::Release => only_if(self.audio, SndAction::DropOutput) + completes(
                self.in_flight,
            ),
        }
    }

    /// After the guest moved the microphone.
    pub open spec fn capture_moved(self, event: PcmEvent) -> Self {
        if event == PcmEvent::Release {
            WorkerView { capture: false, ..self }
        } else {
            self
        }
    }

    /// What is done when the guest moves the microphone. The guest's driver waits for its buffers
    /// on release, so stopping and releasing give them all back.
    pub open spec fn capture_actions(self, event: PcmEvent) -> Seq<SndAction> {
        match event {
            PcmEvent::Prepare => if self.capture {
                seq![SndAction::StopCapture, SndAction::ResetCapture]
            } else {
                seq![
                    SndAction::CreateCapture(
                        if self.capture_params.channels == 0 {
                            1
                        } else {
                            self.capture_params.channels
                        },
                    ),
                ]
            },
            PcmEvent::Start => only_if(self.capture, SndAction::StartCapture),
            PcmEvent::Stop => only_if(self.capture, SndAction::StopCapture) + seq![
                SndAction::FlushRx,
            ],
            PcmEvent::Release => only_if(self.capture, SndAction::DropCapture) + seq![
                SndAction::FlushRx,
            ],
        }
    }

    /// After a control request.
    pub open spec fn after_control(self, req: Seq<u8>) -> Self {
        match VirtioSndHdr::of(req) {
            None => self,
            Some(h) => {
                if h.code == VIRTIO_SND_R_PCM_SET_PARAMS {
                    let p = VirtioSndPcmSetParams::of(req);
                    let params = StreamParams {
                        buffer_bytes: p.buffer_bytes,
                        period_bytes: p.period_bytes,
                        channels: p.channels,
                        format: p.format,
                        rate: p.rate,
                    };
                    if p.stream_id == OUTPUT_STREAM_ID {
                        WorkerView { params, ..self }
                    } else if self.has_stream(p.stream_id) {
                        WorkerView { capture_params: params, ..self }
                    } else {
                        self
                    }
                } else {
                    match event_of(h.code) {
                        Some(event) => {
                            let id = VirtioSndPcmHdr::of(req).stream_id;
                            if id == OUTPUT_STREAM_ID {
                                self.output_moved(event)
                            } else if self.has_stream(id) {
                                self.capture_moved(event)
                            } else {
                                self
                            }
                        },
                        None => self,
                    }
                }
            },
        }
    }

    /// What a control request is answered. A request for a stream that is not there moves
    /// nothing, and nothing is reported of it.
    pub open spec fn control_answer(self, req: Seq<u8>) -> ControlView {
        let plain = |code: u32|
            ControlView { response: status_only(code), actions: Seq::empty(), report: None };
        match VirtioSndHdr::of(req) {
            None => plain(VIRTIO_SND_S_BAD_MSG),
            Some(h) => {
                let q = VirtioSndQueryInfo::of(req);
                if h.code == VIRTIO_SND_R_PCM_INFO {
                    ControlView {
                        response: self.listed(
                            q,
                            protocol::pcm_bytes(VIRTIO_SND_D_OUTPUT, 2),
                            protocol::pcm_bytes(VIRTIO_SND_D_INPUT, 1),
                        ),
                        ..plain(0)
                    }
                } else if h.code == VIRTIO_SND_R_CHMAP_INFO {
                    ControlView {
                        response: self.listed(
                            q,
                            protocol::chmap_bytes(
                                VIRTIO_SND_D_OUTPUT,
                                seq![VIRTIO_SND_CHMAP_FL, VIRTIO_SND_CHMAP_FR],
                            ),
                            protocol::chmap_bytes(
                                VIRTIO_SND_D_INPUT,
                                seq![VIRTIO_SND_CHMAP_MONO],
                            ),
                        ),
                        ..plain(0)
                    }
                } else if h.code == VIRTIO_SND_R_JACK_INFO {
                    plain(VIRTIO_SND_S_OK)
                } else if h.code == VIRTIO_SND_R_PCM_SET_PARAMS {
                    if self.has_stream(VirtioSndPcmSetParams::of(req).stream_id) {
                        plain(VIRTIO_SND_S_OK)
                    } else {
                        plain(VIRTIO_SND_S_BAD_MSG)
                    }
                } else {
                    match event_of(h.code) {
                        Some(event) => {
                            let stream_id = VirtioSndPcmHdr::of(req).stream_id;
                            if self.has_stream(stream_id) {
                                ControlView {
                                    response: status_only(VIRTIO_SND_S_OK),
                                    actions: if stream_id == OUTPUT_STREAM_ID {
                                        self.output_actions(event)
                                    } else {
                                        self.capture_actions(event)
                                    },
                                    report: Some(PcmStreamState { stream_id, event }),
                                }
                            } else {
                                plain(VIRTIO_SND_S_BAD_MSG)
                            }
                        },
                        None => plain(VIRTIO_SND_S_NOT_SUPP),
                    }
                }
            },
        }
    }

    /// The samples of a playback buffer.
    pub open spec fn tx_samples(self, readable: Seq<u8>) -> Seq<i16> {
        samples::decoded(pcm_of(readable, self.params.frame_bytes()))
    }

    /// How many frames a playback buffer has.
    pub open spec fn tx_frames(self, readable: Seq<u8>) -> nat {
        VirtioSndPcmXfer::payload(readable).len() / self.params.frame_bytes()
    }

    /// After a playback buffer. Without a unit to play it, it goes back at once, with any before
    /// it.
    pub open spec fn after_tx(self, index: u16, readable: Seq<u8>) -> Self {
        let frames = self.tx_frames(readable);
        let submitted = (self.submitted + frames) as u64;
        WorkerView {
            submitted,
            in_flight: if self.audio {
                self.in_flight.push((index, submitted))
            } else {
                Seq::empty()
            },
            audibility: match self.audibility {
                Some(a) => if frames > 0 {
                    Some(
                        a.heard(
                            frames as u64,
                            samples::peak_of(self.tx_samples(readable)) == 0,
                        ),
                    )
                } else {
                    Some(a)
                },
                None => None,
            },
            ..self
        }
    }

    /// What the guest gets with a playback buffer: how much the host still owes behind what was
    /// played.
    pub open spec fn tx_status(self) -> Seq<u8> {
        let owed = self.host_latency_frames * self.params.frame_bytes();
        VirtioSndPcmStatus {
            status: VIRTIO_SND_S_OK,
            latency_bytes: if owed > u32::MAX {
                u32::MAX
            } else {
                owed as u32
            },
        }.bytes()
    }

    /// After so many frames were played.
    pub open spec fn reaped(self, consumed: u64) -> Self {
        if self.audio {
            WorkerView {
                in_flight: self.in_flight.skip(played(self.in_flight, consumed) as int),
                ..self
            }
        } else {
            self
        }
    }

    /// What is done once so many frames were played.
    pub open spec fn reap_actions(self, consumed: u64) -> Seq<SndAction> {
        if self.audio {
            completes(self.in_flight.take(played(self.in_flight, consumed) as int))
        } else {
            Seq::empty()
        }
    }

    /// Whether the host is to be asked for its latency at `now`.
    pub open spec fn latency_due(self, now: u64) -> bool {
        self.audio && match self.host_latency_read_at {
            Some(t) => now >= t + LATENCY_REFRESH_NS,
            None => true,
        }
    }

    /// How many samples are recorded into a buffer with `writable` bytes, where so many wait.
    /// None: the buffer waits for more.
    pub open spec fn rx_need(self, available: nat, writable: nat) -> Option<nat> {
        let bpf = self.capture_params.frame_bytes();
        let frames = pcm_room(writable) / bpf;
        if !self.capture || frames == 0 || available < frames * (bpf / 2) {
            None
        } else {
            Some(frames * (bpf / 2))
        }
    }
}

proof fn lemma_played_all(q: Seq<(u16, u64)>, consumed: u64)
    requires
        forall|i: int| 0 <= i < q.len() ==> (#[trigger] q[i]).1 <= consumed,
    ensures
        played(q, consumed) == q.len(),
    decreases q.len(),
{
    if q.len() > 0 {
        let rest = q.skip(1);
        assert forall|i: int| 0 <= i < rest.len() implies (#[trigger] rest[i]).1 <= consumed by {
            assert(rest[i] == q[i + 1]);
        }
        lemma_played_all(rest, consumed);
    }
}

proof fn lemma_played_bound(q: Seq<(u16, u64)>, consumed: u64)
    ensures
        played(q, consumed) <= q.len(),
    decreases q.len(),
{
    if q.len() > 0 {
        lemma_played_bound(q.skip(1), consumed);
    }
}

impl SndWorker {
    pub closed spec fn inv(self) -> bool {
        self@.wf()
    }

    /// A worker for an activation. Silence is reported after so many frames, if it is to be.
    pub fn new(capture_enabled: bool, silent_after_frames: Option<u64>) -> (r: Self)
        ensures
            r.inv(),
            r@ == (WorkerView {
                capture_enabled,
                params: no_params(),
                capture_params: no_params(),
                audio: false,
                capture: false,
                in_flight: Seq::empty(),
                submitted: 0,
                host_latency_frames: 0,
                host_latency_read_at: None,
                audibility: match silent_after_frames {
                    Some(n) => Some(
                        AudibilityView {
                            silent_after_frames: n,
                            zero_frames: 0,
                            reported: None,
                        },
                    ),
                    None => None,
                },
            }),
    {
        SndWorker {
            capture_enabled,
            params: StreamParams::default(),
            capture_params: StreamParams::default(),
            audio: false,
            capture: false,
            in_flight: VecDeque::new(),
            submitted: 0,
            host_latency_frames: 0,
            host_latency_read_at: None,
            audibility: match silent_after_frames {
                Some(n) => Some(Audibility::new(n)),
                None => None,
            },
        }
    }

    /// Gives back every buffer at the front that is played once `consumed` frames are.
    fn complete_up_to(&mut self, consumed: u64, actions: &mut Vec<SndAction>)
        requires
            old(self).inv(),
        ensures
            final(self).inv(),
            final(self)@ == (WorkerView {
                in_flight: old(self)@.in_flight.skip(
                    played(old(self)@.in_flight, consumed) as int,
                ),
                ..old(self)@
            }),
            final(actions)@ == old(actions)@ + completes(
                old(self)@.in_flight.take(played(old(self)@.in_flight, consumed) as int),
            ),
    {
        let ghost before = self@;
        let ghost all = self.in_flight@;
        let ghost mut done: nat = 0;
        let mut any: bool = false;
        proof {
            assert(all.skip(0) =~= all);
            lemma_played_bound(all, consumed);
        }
        while self.in_flight.len() > 0 && self.in_flight[0].1 <= consumed
            invariant
                done <= all.len(),
                self@ == (WorkerView { in_flight: all.skip(done as int), ..before }),
                before.in_flight == all,
                played(all, consumed) == done + played(all.skip(done as int), consumed),
                any == (done > 0),
                actions@ == old(actions)@ + Seq::new(
                    done,
                    |i: int| SndAction::Complete(all[i].0),
                ),
            decreases all.len() - done,
        {
            let ghost q = self.in_flight@;
            match self.in_flight.pop_front() {
                Some((index, end)) => {
                    actions.push(SndAction::Complete(index));
                    any = true;
                    proof {
                        assert(q[0] == all[done as int]);
                        assert(q.skip(1) =~= all.skip(done as int + 1));
                        assert(self.in_flight@ =~= all.skip(done as int + 1));
                        assert(actions@ =~= old(actions)@ + Seq::new(
                            done + 1,
                            |i: int| SndAction::Complete(all[i].0),
                        ));
                        done = done + 1;
                    }
                },
                None => {
                    assert(false);
                },
            }
        }
        if any {
            actions.push(SndAction::SignalUsed);
        }
        proof {
            assert(played(self.in_flight@, consumed) == 0);
            assert(done == played(all, consumed));
            assert(actions@ =~= old(actions)@ + completes(all.take(done as int)));
            let after = self@.in_flight;
            assert forall|i: int, j: int| 0 <= i <= j < after.len() implies #[trigger] after[i].1
                <= #[trigger] after[j].1 by {
                assert(after[i] == all[i + done]);
                assert(after[j] == all[j + done]);
            }
            assert forall|i: int| 0 <= i < after.len() implies (#[trigger] after[i]).1
                <= self@.submitted by {
                assert(after[i] == all[i + done]);
            }
        }
    }

    /// Gives back every buffer.
    fn complete_all_in_flight(&mut self, actions: &mut Vec<SndAction>)
        requires
            old(self).inv(),
        ensures
            final(self).inv(),
            final(self)@ == (WorkerView { in_flight: Seq::empty(), ..old(self)@ }),
            final(actions)@ == old(actions)@ + completes(old(self)@.in_flight),
    {
        let end: u64 = self.submitted;
        proof {
            lemma_played_all(self@.in_flight, end);
            let q = self@.in_flight;
            assert(q.skip(q.len() as int) =~= Seq::empty());
            assert(q.take(q.len() as int) =~= q);
        }
        self.complete_up_to(end, actions);
    }

    fn forget_sound(&mut self)
        requires
            old(self).inv(),
        ensures
            final(self).inv(),
            final(self)@ == (WorkerView { audibility: old(self)@.unheard(), ..old(self)@ }),
    {
        match &mut self.audibility {
            Some(a) => a.reset(),
            None => {},
        }
    }

    /// Moves the playback stream.
    fn handle_pcm_lifecycle(&mut self, event: PcmEvent, actions: &mut Vec<SndAction>)
        requires
            old(self).inv(),
        ensures
            final(self).inv(),
            final(self)@ == old(self)@.output_moved(event),
            final(actions)@ == old(actions)@ + old(self)@.output_actions(event),
    {
        let ghost before = self@;
        // Whatever the guest did, the stream that it left behind is a different one.
        self.forget_sound();
        match event {
            PcmEvent::Prepare => {
                if self.audio {
                    actions.push(SndAction::StopOutput);
                }
                self.complete_all_in_flight(actions);
                self.submitted = 0;
                if self.audio {
                    actions.push(SndAction::ResetOutput);
                } else {
                    let channels: u8 = if self.params.channels == 0 {
                        2
                    } else {
                        self.params.channels
                    };
                    actions.push(SndAction::CreateOutput(channels));
                }
            },
            PcmEvent::Start => {
                if self.audio {
                    actions.push(SndAction::StartOutput);
                }
            },
            PcmEvent::Stop => {
                if self.audio {
                    actions.push(SndAction::StopOutput);
                }
            },
            PcmEvent::Release => {
                if self.audio {
                    actions.push(SndAction::DropOutput);
                }
                self.audio = false;
                self.complete_all_in_flight(actions);
                self.submitted = 0;
            },
        }
        assert(actions@ =~= old(actions)@ + before.output_actions(event));
    }

    /// Moves the microphone.
    fn handle_capture_lifecycle(&mut self, event: PcmEvent, actions: &mut Vec<SndAction>)
        requires
            old(self).inv(),
        ensures
            final(self).inv(),
            final(self)@ == old(self)@.capture_moved(event),
            final(actions)@ == old(actions)@ + old(self)@.capture_actions(event),
    {
        let ghost before = self@;
        match event {
            PcmEvent::Prepare => {
                if self.capture {
                    actions.push(SndAction::StopCapture);
                    actions.push(SndAction::ResetCapture);
                } else {
                    let channels: u8 = if self.capture_params.channels == 0 {
                        1
                    } else {
                        self.capture_params.channels
                    };
                    actions.push(SndAction::CreateCapture(channels));
                }
            },
            PcmEvent::Start => {
                if self.capture {
                    actions.push(SndAction::StartCapture);
                }
            },
            PcmEvent::Stop => {
                if self.capture {
                    actions.push(SndAction::StopCapture);
                }
                actions.push(SndAction::FlushRx);
            },
            PcmEvent::Release => {
                if self.capture {
                    actions.push(SndAction::DropCapture);
                }
                self.capture = false;
                actions.push(SndAction::FlushRx);
            },
        }
        assert(actions@ =~= old(actions)@ + before.capture_actions(event));
    }

    /// Answers a control request, given all that the guest wrote of it.
    pub fn handle_control_req(&mut self, req: &[u8]) -> (r: ControlAnswer)
        requires
            old(self).inv(),
        ensures
            final(self).inv(),
            final(self)@ == old(self)@.after_control(req@),
            r@ == old(self)@.control_answer(req@),
    {
        let ghost before = self@;
        let mut response: Vec<u8> = Vec::new();
        let mut actions: Vec<SndAction> = Vec::new();
        let mut report: Option<PcmStreamState> = None;
        let code: u32 = match VirtioSndHdr::parse(req) {
            Some(h) => h.code,
            None => {
                put_u32(&mut response, VIRTIO_SND_S_BAD_MSG);
                let r = ControlAnswer { response, actions, report };
                assert(r@ =~= before.control_answer(req@));
                return r;
            },
        };
        if code == VIRTIO_SND_R_PCM_INFO {
            let q = VirtioSndQueryInfo::parse(req);
            put_u32(&mut response, VIRTIO_SND_S_OK);
            if q.wants(OUTPUT_STREAM_ID) {
                output_pcm_info().put(&mut response);
            }
            if q.wants(CAPTURE_STREAM_ID) && self.capture_enabled {
                capture_pcm_info().put(&mut response);
            }
        } else if code == VIRTIO_SND_R_CHMAP_INFO {
            let q = VirtioSndQueryInfo::parse(req);
            put_u32(&mut response, VIRTIO_SND_S_OK);
            if q.wants(OUTPUT_STREAM_ID) {
                output_chmap_info().put(&mut response);
            }
            if q.wants(CAPTURE_STREAM_ID) && self.capture_enabled {
                capture_chmap_info().put(&mut response);
            }
        } else if code == VIRTIO_SND_R_JACK_INFO {
            // There are no jacks.
            put_u32(&mut response, VIRTIO_SND_S_OK);
        } else if code == VIRTIO_SND_R_PCM_SET_PARAMS {
            let p = VirtioSndPcmSetParams::parse(req);
            let params = StreamParams {
                buffer_bytes: p.buffer_bytes,
                period_bytes: p.period_bytes,
                channels: p.channels,
                format: p.format,
                rate: p.rate,
            };
            let status: u32 = if p.stream_id == OUTPUT_STREAM_ID {
                self.params = params;
                VIRTIO_SND_S_OK
            } else if p.stream_id == CAPTURE_STREAM_ID && self.capture_enabled {
                self.capture_params = params;
                VIRTIO_SND_S_OK
            } else {
                VIRTIO_SND_S_BAD_MSG
            };
            put_u32(&mut response, status);
        } else {
            match pcm_event(code) {
                Some(event) => {
                    let stream_id: u32 = VirtioSndPcmHdr::parse(req).stream_id;
                    let status: u32 = if stream_id == OUTPUT_STREAM_ID {
                        self.handle_pcm_lifecycle(event, &mut actions);
                        VIRTIO_SND_S_OK
                    } else if stream_id == CAPTURE_STREAM_ID && self.capture_enabled {
                        self.handle_capture_lifecycle(event, &mut actions);
                        VIRTIO_SND_S_OK
                    } else {
                        VIRTIO_SND_S_BAD_MSG
                    };
                    if status == VIRTIO_SND_S_OK {
                        report = Some(PcmStreamState { stream_id, event });
                    }
                    put_u32(&mut response, status);
                },
                None => {
                    put_u32(&mut response, VIRTIO_SND_S_NOT_SUPP);
                },
            }
        }
        let r = ControlAnswer { response, actions, report };
        assert(r@ =~= before.control_answer(req@));
        r
    }

    /// A playback unit was made, or could not be: then buffers go back unheard. Returns whether the
    /// unit is to be reset.
    pub fn output_created(&mut self, ok: bool) -> (reset: bool)
        requires
            old(self).inv(),
        ensures
            final(self).inv(),
            final(self)@ == (WorkerView { audio: ok, ..old(self)@ }),
            reset == ok,
    {
        self.audio = ok;
        ok
    }

    /// A capturing unit was made, or could not be. Returns whether the unit is to be reset.
    pub fn capture_created(&mut self, ok: bool) -> (reset: bool)
        requires
            old(self).inv(),
        ensures
            final(self).inv(),
            final(self)@ == (WorkerView { capture: ok, ..old(self)@ }),
            reset == ok,
    {
        self.capture = ok;
        ok
    }

    /// Whether the host is to be asked for its latency. Without a unit there is none.
    pub fn refresh_host_latency(&mut self, now: u64) -> (due: bool)
        requires
            old(self).inv(),
        ensures
            final(self).inv(),
            due == old(self)@.latency_due(now),
            final(self)@ == (WorkerView {
                host_latency_frames: if old(self)@.audio {
                    old(self)@.host_latency_frames
                } else {
                    0
                },
                host_latency_read_at: if due {
                    Some(now)
                } else {
                    old(self)@.host_latency_read_at
                },
                ..old(self)@
            }),
    {
        if !self.audio {
            self.host_latency_frames = 0;
            return false;
        }
        match self.host_latency_read_at {
            Some(t) => {
                if now.saturating_sub(t) < LATENCY_REFRESH_NS {
                    return false;
                }
            },
            None => {},
        }
        self.host_latency_read_at = Some(now);
        true
    }

    /// The host said what its latency is.
    pub fn latency_read(&mut self, frames: u32)
        requires
            old(self).inv(),
        ensures
            final(self).inv(),
            final(self)@ == (WorkerView { host_latency_frames: frames, ..old(self)@ }),
    {
        self.host_latency_frames = frames;
    }

    /// Takes a playback buffer, given all that the guest wrote in it.
    pub fn process_tx(&mut self, index: u16, readable: &[u8]) -> (r: TxAnswer)
        requires
            old(self).inv(),
            old(self)@.submitted + readable@.len() <= u64::MAX,
        ensures
            final(self).inv(),
            final(self)@ == old(self)@.after_tx(index, readable@),
            r.frames == old(self)@.tx_frames(readable@),
            r.samples@ == old(self)@.tx_samples(readable@),
            r.peak == if r.frames > 0 {
                Some(samples::peak_of(r.samples@) as u16)
            } else {
                None
            },
            r.edge == match old(self)@.audibility {
                Some(a) => if r.frames > 0 {
                    a.edge(r.frames as u64, samples::peak_of(r.samples@) == 0)
                } else {
                    None
                },
                None => None,
            },
            r.status@ == old(self)@.tx_status(),
            r.actions@ == if old(self)@.audio {
                Seq::empty()
            } else {
                completes(
                    old(self)@.in_flight.push(
                        (index, (old(self)@.submitted + r.frames) as u64),
                    ),
                )
            },
    {
        let ghost before = self@;
        let bpf: usize = self.params.bytes_per_frame();
        let len: usize = readable.len();
        let start: usize = if len < 4 {
            len
        } else {
            4
        };
        let frames: usize = (len - start) / bpf;
        proof {
            let p = VirtioSndPcmXfer::payload(readable@);
            assert(p =~= readable@.skip(start as int));
            let n = (len - start) as int;
            let b = bpf as int;
            assert(0 <= n / b * b <= n && 0 <= n / b <= n) by (nonlinear_arith)
                requires
                    n >= 0,
                    b >= 1,
            ;
        }
        let pcm_bytes: usize = frames * bpf;
        let data = vstd::slice::slice_subrange(readable, start, start + pcm_bytes);
        assert(data@ =~= pcm_of(readable@, bpf as nat));
        let decoded: Vec<i16> = samples::decode(data);
        let mut peak: Option<u16> = None;
        let mut edge: Option<PcmAudibility> = None;
        proof {
            let f = frames as int;
            let b = bpf as int;
            assert(f > 0 ==> f * b > 0) by (nonlinear_arith)
                requires
                    b >= 1,
            ;
            assert(f * b > 0 ==> f > 0) by (nonlinear_arith)
                requires
                    b >= 1,
            ;
        }
        if pcm_bytes > 0 {
            let loudest: u16 = samples::peak(decoded.as_slice());
            peak = Some(loudest);
            match &mut self.audibility {
                Some(a) => {
                    edge = a.buffer(frames as u64, loudest == 0);
                },
                None => {},
            }
        }
        let mut status: Vec<u8> = Vec::new();
        proof {
            let l = self.host_latency_frames as int;
            let b = bpf as int;
            assert(0 <= l * b <= 0xffff_ffff * 510) by (nonlinear_arith)
                requires
                    0 <= l <= 0xffff_ffff,
                    0 <= b <= 510,
            ;
        }
        let product: u64 = self.host_latency_frames as u64 * bpf as u64;
        let owed: u32 = if product > u32::MAX as u64 {
            u32::MAX
        } else {
            product as u32
        };
        VirtioSndPcmStatus { status: VIRTIO_SND_S_OK, latency_bytes: owed }.put(&mut status);
        assert(status@ =~= before.tx_status());
        let mut actions: Vec<SndAction> = Vec::new();
        self.submitted = self.submitted + frames as u64;
        self.in_flight.push_back((index, self.submitted));
        assert(self.inv()) by {
            let q = self@.in_flight;
            assert(q == before.in_flight.push((index, self.submitted)));
            assert forall|i: int, j: int| 0 <= i <= j < q.len() implies #[trigger] q[i].1
                <= #[trigger] q[j].1 by {
                if i < before.in_flight.len() {
                    assert(q[i] == before.in_flight[i]);
                }
                if j < before.in_flight.len() {
                    assert(q[j] == before.in_flight[j]);
                }
            }
            assert forall|i: int| 0 <= i < q.len() implies (#[trigger] q[i]).1
                <= self@.submitted by {
                if i < before.in_flight.len() {
                    assert(q[i] == before.in_flight[i]);
                }
            }
        }
        if !self.audio {
            self.complete_all_in_flight(&mut actions);
        }
        assert(self@ == before.after_tx(index, readable@));
        TxAnswer { frames, samples: decoded, peak, edge, status, actions }
    }

    /// Gives back the buffers that are played, given how many frames were.
    pub fn reap_completions(&mut self, consumed: u64) -> (actions: Vec<SndAction>)
        requires
            old(self).inv(),
        ensures
            final(self).inv(),
            final(self)@ == old(self)@.reaped(consumed),
            actions@ == old(self)@.reap_actions(consumed),
    {
        let mut actions: Vec<SndAction> = Vec::new();
        if self.audio {
            self.complete_up_to(consumed, &mut actions);
            assert(actions@ =~= old(self)@.reap_actions(consumed));
        }
        actions
    }

    /// How many samples go into a buffer of `writable` bytes, where `available` wait. None: the
    /// buffer goes back to where it was taken from, until more was recorded.
    pub fn process_rx(&self, available: usize, writable: usize) -> (r: Option<usize>)
        ensures
            match r {
                Some(n) => self@.rx_need(available as nat, writable as nat) == Some(n as nat),
                None => self@.rx_need(available as nat, writable as nat) is None,
            },
    {
        if !self.capture {
            return None;
        }
        let bpf: usize = self.capture_params.bytes_per_frame();
        let room: usize = writable.saturating_sub(PCM_STATUS_SIZE);
        let frames: usize = room / bpf;
        proof {
            let n = room as int;
            let b = bpf as int;
            let c = b / 2;
            assert(0 <= n / b * c <= n) by (nonlinear_arith)
                requires
                    n >= 0,
                    b >= 1,
                    0 <= c <= b,
            ;
        }
        let need: usize = frames * (bpf / 2);
        if frames == 0 || available < need {
            None
        } else {
            Some(need)
        }
    }
}

/// Fills a buffer of `writable` bytes with samples; without any, with silence.
pub fn fill_rx(recording: &[i16], writable: usize) -> (r: Vec<u8>)
    requires
        2 * recording@.len() <= pcm_room(writable as nat),
    ensures
        r@ == recorded(recording@, writable as nat),
{
    let room: usize = writable.saturating_sub(PCM_STATUS_SIZE);
    let mut r: Vec<u8> = Vec::new();
    samples::encode(recording, &mut r);
    let ghost filled = samples::encoded(recording@);
    assert(r@ =~= filled);
    while r.len() < room
        invariant
            room == pcm_room(writable as nat),
            filled.len() <= r@.len() <= room,
            r@ == filled + Seq::new((r@.len() - filled.len()) as nat, |i: int| 0u8),
        decreases room - r.len(),
    {
        r.push(0);
        assert(r@ =~= filled + Seq::new((r@.len() - filled.len()) as nat, |i: int| 0u8));
    }
    VirtioSndPcmStatus { status: VIRTIO_SND_S_OK, latency_bytes: 0 }.put(&mut r);
    assert(r@ =~= recorded(recording@, writable as nat));
    r
}

} // verus!
