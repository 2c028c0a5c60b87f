//! Whether playback carries sound, and the moments at which that changes.
//!
//! A pause is a run of frames that are all zero; sound is back with the first one that is not. The
//! run is counted in frames and not in buffers, because the guest picks how long a buffer is.
use vstd::prelude::*;

verus! {

#[derive(Clone, Copy, PartialEq, Eq, Structural, Debug)]
pub enum PcmAudibility {
    Audible,
    Silent,
}

pub struct Audibility {
    silent_after_frames: u64,
    zero_frames: u64,
    reported: Option<PcmAudibility>,
}

pub struct AudibilityView {
    /// How many frames of silence make a pause.
    pub silent_after_frames: u64,
    /// The run of silence so far.
    pub zero_frames: u64,
    /// What was said last; nothing since the guest moved the stream.
    pub reported: Option<PcmAudibility>,
}

impl View for Audibility {
    type V = AudibilityView;

    closed spec fn view(&self) -> AudibilityView {
        AudibilityView {
            silent_after_frames: self.silent_after_frames,
            zero_frames: self.zero_frames,
            reported: self.reported,
        }
    }
}

impl AudibilityView {
    /// What is true of the stream after a buffer, where that is settled: silence only once it has
    /// lasted.
    pub open spec fn state(self, frames: u64, all_zero: bool) -> Option<PcmAudibility> {
        if !all_zero {
            Some(PcmAudibility::Audible)
        } else if self.zero_frames + frames >= self.silent_after_frames {
            Some(PcmAudibility::Silent)
        } else {
            None
        }
    }

    /// After a buffer.
    pub open spec fn heard(self, frames: u64, all_zero: bool) -> Self {
        AudibilityView {
            zero_frames: if all_zero {
                (self.zero_frames + frames) as u64
            } else {
                0
            },
            reported: match self.state(frames, all_zero) {
                Some(s) => Some(s),
                None => self.reported,
            },
            ..self
        }
    }

    /// What is reported of a buffer: what is settled, unless that was said last.
    pub open spec fn edge(self, frames: u64, all_zero: bool) -> Option<PcmAudibility> {
        match self.state(frames, all_zero) {
            Some(s) => if self.reported == Some(s) {
                None
            } else {
                Some(s)
            },
            None => None,
        }
    }

    /// After the guest moved the stream.
    pub open spec fn moved(self) -> Self {
        AudibilityView { zero_frames: 0, reported: None, ..self }
    }
}

impl Audibility {
    pub fn new(silent_after_frames: u64) -> (r: Self)
        ensures
            r@ == (AudibilityView { silent_after_frames, zero_frames: 0, reported: None }),
    {
        Audibility { silent_after_frames, zero_frames: 0, reported: None }
    }

    /// Takes a buffer of so many frames into account; returns what is to be reported.
    pub fn buffer(&mut self, frames: u64, all_zero: bool) -> (r: Option<PcmAudibility>)
        requires
            old(self)@.zero_frames + frames <= u64::MAX,
        ensures
            r == old(self)@.edge(frames, all_zero),
            final(self)@ == old(self)@.heard(frames, all_zero),
    {
        let edge = if all_zero {
            self.zero_frames = self.zero_frames + frames;
            if self.zero_frames < self.silent_after_frames {
                return None;
            }
            PcmAudibility::Silent
        } else {
            self.zero_frames = 0;
            PcmAudibility::Audible
        };
        let repeated = match self.reported {
            Some(s) => s == edge,
            None => false,
        };
        if repeated {
            return None;
        }
        self.reported = Some(edge);
        Some(edge)
    }

    /// The guest moved the stream: whatever comes next is news.
    pub fn reset(&mut self)
        ensures
            final(self)@ == old(self)@.moved(),
    {
        self.zero_frames = 0;
        self.reported = None;
    }
}

/// The run of silence does not depend on how the guest cuts it into buffers: two buffers of
/// silence leave what one of their joint length leaves.
pub proof fn law_period_size_does_not_matter(v: AudibilityView, a: u64, b: u64)
    requires
        v.zero_frames + a + b <= u64::MAX,
    ensures
        v.heard(a, true).heard(b, true) == v.heard((a + b) as u64, true),
        v.heard(a, true).edge(b, true) is Some ==> v.edge((a + b) as u64, true) == Some(
            PcmAudibility::Silent,
        ),
        v.edge((a + b) as u64, true) is Some ==> (v.edge(a, true) == Some(PcmAudibility::Silent)
            || v.heard(a, true).edge(b, true) == Some(PcmAudibility::Silent)),
{
}

/// The same thing is never reported twice in a row, until the guest moves the stream: then it is
/// news again.
pub proof fn law_edges_alternate(v: AudibilityView, frames: u64, all_zero: bool, next: u64, next_zero: bool)
    ensures
        v.edge(frames, all_zero) matches Some(s) ==> v.heard(frames, all_zero).edge(next, next_zero)
            != Some(s),
        v.moved().edge(next, false) == Some(PcmAudibility::Audible),
        next >= v.silent_after_frames ==> v.moved().edge(next, true) == Some(PcmAudibility::Silent),
{
}

} // verus!
