//! A stream between the guest and the host's audio unit: its ring, whether it runs, and what its
//! realtime callback does with a request for samples.
use crate::snd::ring;
use crate::snd::ring::{RingView, SpscRing};
use vstd::prelude::*;

verus! {

/// One second. The guest keeps far less in flight; the slack avoids overflow.
pub const RING_FRAMES: usize = 48_000;

/// The most frames that one capture callback takes.
pub const CAPTURE_MAX_FRAMES: usize = 8192;

/// How many frames the host takes at once where it does not say.
pub const DEFAULT_HOST_PERIOD_FRAMES: u64 = 512;

pub const MIN_LEAD_FRAMES: u64 = 256;

pub const MAX_LEAD_FRAMES: u64 = 2048;

/// Counters of the realtime callback. They belong to the device and not to one stream, so that
/// they outlive a stream that a fault makes the guest tear down.
#[derive(Clone, Copy, PartialEq, Eq, Structural, Debug)]
pub struct AudioStats {
    /// Callbacks served.
    pub callbacks: u64,
    /// Callbacks that found fewer frames than they asked for.
    pub underruns: u64,
    /// Frames of silence that filled the gaps.
    pub frames_short: u64,
    /// The fewest frames that a callback found waiting since the last report.
    pub min_avail: u64,
    /// Samples that found no room in the ring.
    pub dropped: u64,
}

impl AudioStats {
    pub fn new() -> (r: Self)
        ensures
            r == (AudioStats {
                callbacks: 0,
                underruns: 0,
                frames_short: 0,
                min_avail: u64::MAX,
                dropped: 0,
            }),
    {
        AudioStats { callbacks: 0, underruns: 0, frames_short: 0, min_avail: u64::MAX, dropped: 0 }
    }

    /// The counters for a report. The closest call starts over; the rest counts on.
    pub fn snapshot(&mut self) -> (r: (u64, u64, u64, u64, u64))
        ensures
            r == (
                old(self).callbacks,
                old(self).underruns,
                old(self).frames_short,
                old(self).min_avail,
                old(self).dropped,
            ),
            *final(self) == (AudioStats { min_avail: u64::MAX, ..*old(self) }),
    {
        let least: u64 = self.min_avail;
        self.min_avail = u64::MAX;
        (self.callbacks, self.underruns, self.frames_short, least, self.dropped)
    }

    /// After a callback that wanted `want` samples on `channels` channels and found `queued`.
    pub open spec fn rendered(self, queued: nat, want: nat, channels: nat) -> Self {
        let got = ring::least(queued, want);
        let avail = (queued / channels) as u64;
        AudioStats {
            callbacks: self.callbacks.wrapping_add(1),
            min_avail: if avail < self.min_avail {
                avail
            } else {
                self.min_avail
            },
            underruns: if got < want {
                self.underruns.wrapping_add(1)
            } else {
                self.underruns
            },
            frames_short: if got < want {
                self.frames_short.wrapping_add((((want - got) as nat) / channels) as u64)
            } else {
                self.frames_short
            },
            ..self
        }
    }
}

/// How far ahead of what was played buffers are completed, from what was asked for: not at all
/// unless asked, and within bounds where asked.
pub fn lead_frames(asked: Option<u64>) -> (r: u64)
    ensures
        r == match asked {
            Some(n) => if n == 0 {
                0
            } else if n < MIN_LEAD_FRAMES {
                MIN_LEAD_FRAMES
            } else if n > MAX_LEAD_FRAMES {
                MAX_LEAD_FRAMES
            } else {
                n
            },
            None => 0,
        },
{
    match asked {
        Some(n) => if n == 0 {
            0
        } else if n < MIN_LEAD_FRAMES {
            MIN_LEAD_FRAMES
        } else if n > MAX_LEAD_FRAMES {
            MAX_LEAD_FRAMES
        } else {
            n
        },
        None => 0,
    }
}

/// The device in a reply to the question for the default one: none where the question failed or
/// the reply is no device.
pub fn device_of(status: i32, device: u32) -> (r: Option<u32>)
    ensures
        r == if status != 0 || device == 0 {
            None::<u32>
        } else {
            Some(device)
        },
{
    if status != 0 || device == 0 {
        None
    } else {
        Some(device)
    }
}

/// How many frames the host takes at once, from a device's answer to the question.
pub fn host_period_frames(answer: Option<(i32, u32)>) -> (r: u64)
    ensures
        r == match answer {
            Some((status, frames)) => if status != 0 || frames == 0 {
                DEFAULT_HOST_PERIOD_FRAMES
            } else {
                frames as u64
            },
            None => DEFAULT_HOST_PERIOD_FRAMES,
        },
{
    match answer {
        Some((status, frames)) => if status != 0 || frames == 0 {
            DEFAULT_HOST_PERIOD_FRAMES
        } else {
            frames as u64
        },
        None => DEFAULT_HOST_PERIOD_FRAMES,
    }
}

/// Playback: what the guest gave and the host did not play yet.
pub struct OutputStream {
    ring: SpscRing,
    frames_consumed: u64,
    channels: usize,
    started: bool,
    lead_frames: u64,
}

pub struct OutputView {
    pub ring: RingView,
    /// Frames of the guest's that were played since the last reset.
    pub frames_consumed: u64,
    pub channels: nat,
    pub started: bool,
    pub lead_frames: u64,
}

impl View for OutputStream {
    type V = OutputView;

    closed spec fn view(&self) -> OutputView {
        OutputView {
            ring: self.ring@,
            frames_consumed: self.frames_consumed,
            channels: self.channels as nat,
            started: self.started,
            lead_frames: self.lead_frames,
        }
    }
}

impl OutputStream {
    pub closed spec fn inv(self) -> bool {
        self.ring.inv() && self.channels > 0
    }

    /// A stream on so many channels, not started.
    pub fn new(channels: u8, lead_frames: u64) -> (r: Self)
        requires
            channels > 0,
        ensures
            r.inv(),
            r@ == (OutputView {
                ring: RingView {
                    queued: Seq::empty(),
                    cap: (RING_FRAMES * channels) as nat,
                },
                frames_consumed: 0,
                channels: channels as nat,
                started: false,
                lead_frames,
            }),
    {
        OutputStream {
            ring: SpscRing::new(RING_FRAMES * channels as usize),
            frames_consumed: 0,
            channels: channels as usize,
            started: false,
            lead_frames,
        }
    }

    pub fn lead_frames(&self) -> (r: u64)
        ensures
            r == self@.lead_frames,
    {
        self.lead_frames
    }

    /// The frames behind which buffers go back: those played, and the lead that was asked for.
    pub fn frames_paced(&self) -> (r: u64)
        ensures
            r == if self@.frames_consumed + self@.lead_frames > u64::MAX {
                u64::MAX as int
            } else {
                self@.frames_consumed + self@.lead_frames
            },
    {
        self.frames_consumed.saturating_add(self.lead_frames)
    }

    /// Whether the unit is to be started: only where it does not run.
    pub fn start(&self) -> (r: bool)
        ensures
            r == !self@.started,
    {
        !self.started
    }

    /// The unit was started, or could not be.
    pub fn started(&mut self, ok: bool)
        requires
            old(self).inv(),
        ensures
            final(self).inv(),
            final(self)@ == (OutputView { started: old(self)@.started || ok, ..old(self)@ }),
    {
        if ok {
            self.started = true;
        }
    }

    /// Stops the stream. Returns whether the unit is to be stopped.
    pub fn stop(&mut self) -> (r: bool)
        requires
            old(self).inv(),
        ensures
            final(self).inv(),
            r == old(self)@.started,
            final(self)@ == (OutputView { started: false, ..old(self)@ }),
    {
        let r = self.started;
        self.started = false;
        r
    }

    /// Forgets what was not played, for a stream that starts over. The counters of the device go
    /// on, but for the closest call.
    pub fn reset(&mut self, stats: &mut AudioStats)
        requires
            old(self).inv(),
        ensures
            final(self).inv(),
            final(self)@ == (OutputView {
                ring: RingView { queued: Seq::empty(), ..old(self)@.ring },
                frames_consumed: 0,
                ..old(self)@
            }),
            *final(stats) == (AudioStats { min_avail: u64::MAX, ..*old(stats) }),
    {
        self.ring.reset();
        self.frames_consumed = 0;
        stats.min_avail = u64::MAX;
    }

    /// Takes the guest's samples; returns how many there was room for, and counts the others.
    pub fn push_samples(&mut self, samples: &[i16], stats: &mut AudioStats) -> (n: usize)
        requires
            old(self).inv(),
        ensures
            final(self).inv(),
            final(self)@ == (OutputView {
                ring: old(self)@.ring.pushed(samples@),
                ..old(self)@
            }),
            n == ring::least(
                (old(self)@.ring.cap - old(self)@.ring.queued.len()) as nat,
                samples@.len(),
            ),
            *final(stats) == (AudioStats {
                dropped: if n < samples@.len() {
                    old(stats).dropped.wrapping_add((samples@.len() - n) as u64)
                } else {
                    old(stats).dropped
                },
                ..*old(stats)
            }),
    {
        let n: usize = self.ring.push(samples);
        if n < samples.len() {
            stats.dropped = stats.dropped.wrapping_add((samples.len() - n) as u64);
        }
        n
    }

    pub fn frames_consumed(&self) -> (r: u64)
        ensures
            r == self@.frames_consumed,
    {
        self.frames_consumed
    }

    /// How many whole frames are waiting to be played.
    pub fn frames_queued(&self) -> (r: u64)
        requires
            self.inv(),
        ensures
            r == self@.ring.queued.len() / self@.channels,
    {
        (self.ring.available() / self.channels) as u64
    }

    /// The realtime callback: fills `out` with what the guest gave, and with silence behind it.
    /// Returns whether anything was played: the device's thread is then to be woken.
    pub fn render(&mut self, out: &mut [i16], stats: &mut AudioStats) -> (kick: bool)
        requires
            old(self).inv(),
        ensures
            final(self).inv(),
            ({
                let v = old(self)@;
                let want = old(out)@.len();
                let got = ring::least(v.ring.queued.len(), want);
                &&& kick == (got > 0)
                &&& final(out)@ == v.ring.queued.take(got as int) + Seq::new(
                    (want - got) as nat,
                    |i: int| 0i16,
                )
                &&& final(self)@ == (OutputView {
                    ring: v.ring.pulled(want),
                    frames_consumed: if got > 0 {
                        v.frames_consumed.wrapping_add((got / v.channels) as u64)
                    } else {
                        v.frames_consumed
                    },
                    ..v
                })
                &&& *final(stats) == old(stats).rendered(v.ring.queued.len(), want, v.channels)
            }),
    {
        let want: usize = out.len();
        stats.callbacks = stats.callbacks.wrapping_add(1);
        let avail: u64 = self.frames_queued();
        if avail < stats.min_avail {
            stats.min_avail = avail;
        }
        let ghost queued = self@.ring.queued;
        let got: usize = self.ring.pull(out);
        let ghost filled = out@;
        if got < want {
            let mut i: usize = got;
            while i < want
                invariant
                    got <= i <= want == out@.len() == filled.len(),
                    forall|k: int|
                        0 <= k < want ==> #[trigger] out@[k] == (if got <= k < i {
                            0i16
                        } else {
                            filled[k]
                        }),
                decreases want - i,
            {
                out[i] = 0;
                i = i + 1;
            }
            stats.underruns = stats.underruns.wrapping_add(1);
            let short: u64 = ((want - got) / self.channels) as u64;
            stats.frames_short = stats.frames_short.wrapping_add(short);
        }
        if got > 0 {
            let played: u64 = (got / self.channels) as u64;
            self.frames_consumed = self.frames_consumed.wrapping_add(played);
        }
        assert(out@ =~= queued.take(got as int) + Seq::new((want - got) as nat, |i: int| 0i16));
        got > 0
    }
}

/// Capture: what the host recorded and the guest did not get yet.
pub struct InputStream {
    ring: SpscRing,
    channels: usize,
    started: bool,
}

pub struct InputView {
    pub ring: RingView,
    pub channels: nat,
    pub started: bool,
}

impl View for InputStream {
    type V = InputView;

    closed spec fn view(&self) -> InputView {
        InputView {
            ring: self.ring@,
            channels: self.channels as nat,
            started: self.started,
        }
    }
}

impl InputStream {
    pub closed spec fn inv(self) -> bool {
        self.ring.inv() && 0 < self.channels <= u8::MAX
    }

    /// A stream on so many channels, not started.
    pub fn new(channels: u8) -> (r: Self)
        requires
            channels > 0,
        ensures
            r.inv(),
            r@ == (InputView {
                ring: RingView {
                    queued: Seq::empty(),
                    cap: (RING_FRAMES * channels) as nat,
                },
                channels: channels as nat,
                started: false,
            }),
    {
        InputStream {
            ring: SpscRing::new(RING_FRAMES * channels as usize),
            channels: channels as usize,
            started: false,
        }
    }

    /// Whether the unit is to be started: only where it does not run.
    pub fn start(&self) -> (r: bool)
        ensures
            r == !self@.started,
    {
        !self.started
    }

    /// The unit was started, or could not be.
    pub fn started(&mut self, ok: bool)
        requires
            old(self).inv(),
        ensures
            final(self).inv(),
            final(self)@ == (InputView { started: old(self)@.started || ok, ..old(self)@ }),
    {
        if ok {
            self.started = true;
        }
    }

    /// Stops the stream. Returns whether the unit is to be stopped.
    pub fn stop(&mut self) -> (r: bool)
        requires
            old(self).inv(),
        ensures
            final(self).inv(),
            r == old(self)@.started,
            final(self)@ == (InputView { started: false, ..old(self)@ }),
    {
        let r = self.started;
        self.started = false;
        r
    }

    /// Forgets what the guest did not get.
    pub fn reset(&mut self)
        requires
            old(self).inv(),
        ensures
            final(self).inv(),
            final(self)@ == (InputView {
                ring: RingView { queued: Seq::empty(), ..old(self)@.ring },
                ..old(self)@
            }),
    {
        self.ring.reset();
    }

    /// How many samples of a callback with so many frames are taken.
    pub open spec fn taken(self, frames: u32) -> nat {
        self@.channels * ring::least(frames as nat, CAPTURE_MAX_FRAMES as nat)
    }

    /// How many samples the realtime callback takes, of so many frames that the host has for it.
    pub fn capture_samples(&self, frames: u32) -> (n: usize)
        requires
            self.inv(),
        ensures
            n == self.taken(frames),
    {
        let n: usize = if frames as usize <= CAPTURE_MAX_FRAMES {
            frames as usize
        } else {
            CAPTURE_MAX_FRAMES
        };
        proof {
            let c = self.channels as int;
            let m = n as int;
            assert(0 <= c * m <= 255 * 8192) by (nonlinear_arith)
                requires
                    0 <= c <= 255,
                    0 <= m <= 8192,
            ;
        }
        self.channels * n
    }

    /// The realtime callback recorded samples; those without room are lost.
    pub fn captured(&mut self, samples: &[i16]) -> (n: usize)
        requires
            old(self).inv(),
        ensures
            final(self).inv(),
            final(self)@ == (InputView { ring: old(self)@.ring.pushed(samples@), ..old(self)@ }),
            n == ring::least(
                (old(self)@.ring.cap - old(self)@.ring.queued.len()) as nat,
                samples@.len(),
            ),
    {
        self.ring.push(samples)
    }

    /// Gives recorded samples out; returns how many there were.
    pub fn pull_samples(&mut self, out: &mut [i16]) -> (n: usize)
        requires
            old(self).inv(),
        ensures
            final(self).inv(),
            final(self)@ == (InputView {
                ring: old(self)@.ring.pulled(old(out)@.len()),
                ..old(self)@
            }),
            n == ring::least(old(self)@.ring.queued.len(), old(out)@.len()),
            final(out)@ == old(self)@.ring.queued.take(n as int) + old(out)@.skip(n as int),
    {
        self.ring.pull(out)
    }

    /// How many recorded samples are waiting.
    pub fn available(&self) -> (r: usize)
        ensures
            r == self@.ring.queued.len(),
    {
        self.ring.available()
    }
}

/// Two callbacks play what one of their joint length would have: nothing is played twice, skipped
/// or put in another order.
pub proof fn law_callbacks_play_in_order(v: RingView, first: nat, second: nat)
    ensures
        v.pulled(first).pulled(second) == v.pulled(first + second),
        v.queued.take(ring::least(v.queued.len(), first) as int) + v.pulled(first).queued.take(
            ring::least(v.pulled(first).queued.len(), second) as int,
        ) == v.queued.take(ring::least(v.queued.len(), first + second) as int),
{
    assert(v.pulled(first).pulled(second).queued =~= v.pulled(first + second).queued);
    assert(v.queued.take(ring::least(v.queued.len(), first) as int) + v.pulled(first).queued.take(
        ring::least(v.pulled(first).queued.len(), second) as int,
    ) =~= v.queued.take(ring::least(v.queued.len(), first + second) as int));
}

} // verus!
