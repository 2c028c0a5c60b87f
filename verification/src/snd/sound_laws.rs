//! What becomes of samples between the guest and the host, and what is said of them.
use crate::codec;
use crate::snd::audibility::{AudibilityView, PcmAudibility};
use crate::snd::device;
use crate::snd::events;
use crate::snd::events::{LoopFds, Route, SndService, SndSource};
use crate::snd::ring::RingView;
use crate::snd::samples;
use crate::snd::stream::AudioStats;
use crate::snd::trace::TraceView;
use crate::snd::unit;
use crate::snd::unit::{PropertyValue, UnitCall, UnitDirection, UnitPhase, UnitView};
use vstd::prelude::*;

verus! {

/// A ring takes samples behind those that wait, the first of them first, and only as many as fit;
/// those that wait stay as they are.
pub proof fn law_ring_takes_what_fits(v: RingView, s: Seq<i16>, i: int)
    requires
        v.queued.len() <= v.cap,
        0 <= i < v.pushed(s).queued.len(),
    ensures
        v.pushed(s).cap == v.cap,
        v.pushed(s).queued.len() <= v.cap,
        v.queued.len() + s.len() <= v.cap ==> v.pushed(s).queued.len() == v.queued.len() + s.len(),
        v.queued.len() + s.len() > v.cap ==> v.pushed(s).queued.len() == v.cap,
        i < v.queued.len() ==> v.pushed(s).queued[i] == v.queued[i],
        i >= v.queued.len() ==> v.pushed(s).queued[i] == s[i - v.queued.len()],
{
}

/// A ring gives the samples out that waited longest, as many as were asked for or as there are.
pub proof fn law_ring_gives_the_oldest(v: RingView, n: nat, i: int)
    requires
        0 <= i < v.pulled(n).queued.len(),
    ensures
        v.pulled(n).cap == v.cap,
        v.pulled(n).queued.len() == v.queued.len() - n,
        v.pulled(n).queued[i] == v.queued[i + n],
{
}

/// A ring from which as many are asked for as it holds is empty.
pub proof fn law_ring_runs_dry(v: RingView, n: nat)
    requires
        n >= v.queued.len(),
    ensures
        v.pulled(n).queued.len() == 0,
{
}

/// A callback that finds enough is no underrun. One that does not is one, and it is short by the
/// whole frames that were missing. The closest call is the fewest frames that any callback found.
pub proof fn law_underruns_are_counted(s: AudioStats, queued: nat, want: nat, channels: nat)
    requires
        channels > 0,
        queued <= u64::MAX,
        want <= u64::MAX,
        s.callbacks < u64::MAX,
        s.underruns < u64::MAX,
        s.frames_short + want <= u64::MAX,
    ensures
        ({
            let after = s.rendered(queued, want, channels);
            let avail = queued as int / channels as int;
            &&& after.callbacks == s.callbacks + 1
            &&& queued >= want ==> after.underruns == s.underruns && after.frames_short
                == s.frames_short
            &&& queued < want ==> after.underruns == s.underruns + 1 && after.frames_short
                == s.frames_short + (want - queued) / channels as int
            &&& after.min_avail <= avail
            &&& after.min_avail <= s.min_avail
            &&& after.min_avail == avail || after.min_avail == s.min_avail
            &&& after.dropped == s.dropped
        }),
{
    assert(0 <= queued as int / channels as int <= queued) by (nonlinear_arith)
        requires
            channels > 0,
            queued >= 0,
    ;
    if queued < want {
        let short = want - queued;
        assert(0 <= short / channels as int <= short) by (nonlinear_arith)
            requires
                channels > 0,
                short >= 0,
        ;
    }
}

/// A sample is its two bytes, low byte first, and counts below zero from the upper half on.
pub proof fn law_bytes_of_a_sample(lo: u8, hi: u8, s: i16)
    ensures
        samples::sample_of(lo, hi) as int % 65536 == lo + 256 * hi,
        samples::low(s) + 256 * samples::high(s) == s as int % 65536,
        samples::sample_of(lo, hi) < 0 <==> hi >= 128,
{
}

/// The peak is as loud as the loudest sample: none is louder, and one is that loud.
pub proof fn law_peak_is_the_loudest(s: Seq<i16>, i: int)
    requires
        0 <= i < s.len(),
    ensures
        s[i] <= samples::peak_of(s),
        -(s[i] as int) <= samples::peak_of(s),
        exists|k: int|
            0 <= k < s.len() && (#[trigger] s[k] == samples::peak_of(s) || -(s[k] as int)
                == samples::peak_of(s)),
    decreases s.len(),
{
    let front = s.drop_last();
    if front.len() == 0 {
        assert(samples::peak_of(front) == 0);
        assert(s[0] == s.last());
    } else {
        law_peak_is_the_loudest(
            front,
            if i < front.len() {
                i
            } else {
                0
            },
        );
        let k = choose|k: int|
            0 <= k < front.len() && (#[trigger] front[k] == samples::peak_of(front) || -(
            front[k] as int) == samples::peak_of(front));
        assert(s[k] == front[k]);
        assert(s[s.len() - 1] == s.last());
        if i < front.len() {
            assert(front[i] == s[i]);
        }
    }
}

/// Sound is heard with the first frame that is not silent; a pause only once silence lasted for as
/// many frames as were asked for, however they are cut into buffers. Each is said once.
pub proof fn law_when_sound_is_heard(v: AudibilityView, frames: u64)
    requires
        v.zero_frames + frames <= u64::MAX,
    ensures
        v.reported != Some(PcmAudibility::Audible) ==> v.edge(frames, false) == Some(
            PcmAudibility::Audible,
        ),
        v.reported == Some(PcmAudibility::Audible) ==> v.edge(frames, false) is None,
        v.heard(frames, false).zero_frames == 0,
        v.heard(frames, false).reported == Some(PcmAudibility::Audible),
        v.heard(frames, true).zero_frames == v.zero_frames + frames,
        v.zero_frames + frames < v.silent_after_frames ==> v.edge(frames, true) is None && v.heard(
            frames,
            true,
        ).reported == v.reported,
        v.zero_frames + frames >= v.silent_after_frames ==> v.heard(frames, true).reported == Some(
            PcmAudibility::Silent,
        ) && (v.edge(frames, true) is Some <==> v.reported != Some(PcmAudibility::Silent)),
        v.heard(frames, true).silent_after_frames == v.silent_after_frames,
        v.moved().zero_frames == 0,
        v.moved().reported is None,
{
}

/// The config space: no jacks, a stream and a channel map for playback and one more of each with a
/// microphone, and no controls. A read gets the bytes that it asks for, or nothing at all.
pub proof fn law_sound_config(capture: bool, offset: u64, data: Seq<u8>, i: int)
    ensures
        ({
            let c = device::config_of(capture).bytes();
            let n: nat = if capture {
                2
            } else {
                1
            };
            &&& c.len() == 16
            &&& codec::le_value(c.subrange(0, 4)) == 0
            &&& codec::le_value(c.subrange(4, 8)) == n
            &&& codec::le_value(c.subrange(8, 12)) == n
            &&& codec::le_value(c.subrange(12, 16)) == 0
            &&& offset + data.len() <= 16 && 0 <= i < data.len() ==> device::config_after(
                c,
                offset,
                data,
            ).len() == data.len() && device::config_after(c, offset, data)[i] == c[offset + i]
            &&& offset + data.len() > 16 ==> device::config_after(c, offset, data) == data
        }),
{
    let n: u32 = if capture {
        2
    } else {
        1
    };
    let c = device::config_of(capture).bytes();
    codec::lemma_le_bounds();
    codec::lemma_le_bytes_len(0, 4);
    codec::lemma_le_bytes_len(n as nat, 4);
    codec::lemma_le_round_trip(0, 4);
    codec::lemma_le_round_trip(n as nat, 4);
    assert(c.subrange(0, 4) =~= codec::enc_u32(0));
    assert(c.subrange(4, 8) =~= codec::enc_u32(n));
    assert(c.subrange(8, 12) =~= codec::enc_u32(n));
    assert(c.subrange(12, 16) =~= codec::enc_u32(0));
}

/// Each queue's wake serves that queue; what was played is given back, and with a microphone
/// recording goes on behind it.
pub proof fn law_wakes_are_served(capture: bool)
    ensures
        events::served(SndSource::Control, capture) == SndService::Control,
        events::served(SndSource::Tx, capture) == SndService::Tx,
        events::served(SndSource::Rx, capture) == SndService::Rx,
        events::served(SndSource::Completion, capture) == (SndService::Reap { rx: capture }),
        events::served(SndSource::Stop, capture) == SndService::Stop,
        SndSource::Control.number() == 0,
        SndSource::Tx.number() == 1,
        SndSource::Rx.number() == 2,
        SndSource::Completion.number() == 3,
        SndSource::Stop.number() == 4,
{
}

/// On a shared loop an activation is always taken up; a queue is served only once the device is
/// active and has something to read.
pub proof fn law_shared_loop(f: LoopFds, fd: i32, readable: bool, activated: bool)
    requires
        f.activate != f.control && f.activate != f.tx && f.control != f.tx,
    ensures
        ({
            let r = events::routed(f, fd, readable, activated);
            &&& r == Route::Activate <==> fd == f.activate
            &&& r == Route::Control <==> fd == f.control && activated && readable
            &&& r == Route::Tx <==> fd == f.tx && activated && readable
            &&& r == Route::WrongEvent <==> (fd == f.control || fd == f.tx) && activated
                && !readable
            &&& r == Route::Spurious <==> fd != f.activate && !activated
        }),
{
}

/// A buffer counts once in its window, with its frames, its loudest sample and the time since the
/// one before it. Silent ones are counted beside, and how many came in a row.
pub proof fn law_buffers_are_traced(v: TraceView, now: u64, frames: u64, peak: u16)
    requires
        v.buffers < u64::MAX,
        v.frames + frames <= u64::MAX,
        v.zeros < u64::MAX,
        v.zero_run < u64::MAX,
        v.last_buffer matches Some(t) ==> t <= now,
    ensures
        ({
            let a = v.heard(now, frames, peak);
            &&& a.buffers == v.buffers + 1
            &&& a.frames == v.frames + frames
            &&& a.peak >= peak && a.peak >= v.peak && (a.peak == peak || a.peak == v.peak)
            &&& a.last_buffer == Some(now)
            &&& v.last_buffer is None ==> a.max_gap_us == v.max_gap_us
            &&& v.last_buffer matches Some(t) ==> a.max_gap_us >= (now - t) / 1000 && a.max_gap_us
                >= v.max_gap_us && (a.max_gap_us == (now - t) / 1000 || a.max_gap_us
                == v.max_gap_us)
            &&& peak == 0 ==> a.zeros == v.zeros + 1 && a.zero_run == v.zero_run + 1
                && a.zero_run_max >= a.zero_run
            &&& peak != 0 ==> a.zeros == v.zeros && a.zero_run == 0
            &&& a.zero_run_max >= v.zero_run_max
            &&& a.window_start == v.window_start
        }),
{
}

/// A line is due a second after its window began, and says what the window saw. The next window
/// starts over, but for a run of silence that goes on.
pub proof fn law_lines_say_what_was_seen(v: TraceView, now: u64)
    requires
        v.window_start <= now,
        v.last_buffer matches Some(t) ==> t <= now,
    ensures
        v.over(now) <==> now >= v.window_start + 1_000_000_000,
        ({
            let l = v.line(now);
            l.buffers == v.buffers && l.frames == v.frames && l.peak == v.peak && l.zeros == v.zeros
                && l.zero_run_max == v.zero_run_max && l.max_gap_us == v.max_gap_us
        }),
        v.last_buffer matches Some(t) ==> v.line(now).idle_ms == Some(
            ((now - t) / 1_000_000) as u64,
        ),
        v.last_buffer is None ==> v.line(now).idle_ms is None,
        ({
            let n = v.next(now);
            n.window_start == now && n.buffers == 0 && n.frames == 0 && n.peak == 0 && n.zeros == 0
                && n.max_gap_us == 0 && n.zero_run == v.zero_run && n.zero_run_max == v.zero_run
                && n.last_buffer == v.last_buffer
        }),
{
}

/// A unit plays or records packed floating point samples at 48 kHz, four bytes to the sample. A
/// playing unit is the default output and gets its samples by a callback; a recording one has its
/// input on and its output off, sits on the default input device, and hands its samples out by a
/// callback.
pub proof fn law_units_are_set_up(channels: u8, device: u32)
    ensures
        ({
            let f = unit::format_of(channels);
            let out = unit::calls(UnitDirection::Output, channels, device);
            let inp = unit::calls(UnitDirection::Input, channels, device);
            let o = unit::component_of(UnitDirection::Output);
            let i = unit::component_of(UnitDirection::Input);
            &&& f.sample_rate == 48_000 && f.bits_per_channel == 32 && f.channels_per_frame
                == channels && f.bytes_per_frame == 4 * channels && f.bytes_per_packet == 4
                * channels && f.frames_per_packet == 1
            &&& o.component_sub_type == 0x6465_6620 && i.component_sub_type == 0x6168_616c
            &&& out.len() == 5
            &&& out[0] == UnitCall::Find(o) && out[1] == UnitCall::Instantiate && out[4]
                == UnitCall::Initialize
            &&& out[2] == (UnitCall::SetProperty {
                id: 8,
                scope: 1,
                element: 0,
                value: PropertyValue::Format(f),
            })
            &&& out[3] == (UnitCall::SetProperty {
                id: 23,
                scope: 1,
                element: 0,
                value: PropertyValue::Callback,
            })
            &&& inp.len() == 9
            &&& inp[0] == UnitCall::Find(i) && inp[1] == UnitCall::Instantiate && inp[4]
                == UnitCall::DefaultInput && inp[8] == UnitCall::Initialize
            &&& inp[2] == (UnitCall::SetProperty {
                id: 2003,
                scope: 1,
                element: 1,
                value: PropertyValue::Word(1),
            })
            &&& inp[3] == (UnitCall::SetProperty {
                id: 2003,
                scope: 2,
                element: 0,
                value: PropertyValue::Word(0),
            })
            &&& inp[5] == (UnitCall::SetProperty {
                id: 2000,
                scope: 0,
                element: 0,
                value: PropertyValue::Word(device),
            })
            &&& inp[6] == (UnitCall::SetProperty {
                id: 8,
                scope: 2,
                element: 1,
                value: PropertyValue::Format(f),
            })
            &&& inp[7] == (UnitCall::SetProperty {
                id: 2005,
                scope: 0,
                element: 0,
                value: PropertyValue::Callback,
            })
        }),
{
}

/// A recording unit is put on the device that the host named as the default input.
pub proof fn law_recording_uses_the_default_input(v: UnitView, device: u32)
    requires
        v.direction == UnitDirection::Input,
        v.phase == UnitPhase::Call(4),
    ensures
        v.due() == Some(UnitCall::DefaultInput),
        v.after(0, device).due() == Some(
            UnitCall::SetProperty {
                id: 2000,
                scope: 0,
                element: 0,
                value: PropertyValue::Word(device),
            },
        ),
{
}

} // verus!
