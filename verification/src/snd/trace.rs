//! A trace of the playback queue, a line a second: whether a guest that pauses stops sending
//! buffers, or goes on with silent ones.
use vstd::prelude::*;

verus! {

/// How long one line covers, in nanoseconds.
pub const TRACE_WINDOW_NS: u64 = 1_000_000_000;

pub struct TxTrace {
    window_start: u64,
    last_buffer: Option<u64>,
    buffers: u64,
    frames: u64,
    peak: u16,
    max_gap_us: u64,
    zeros: u64,
    zero_run: u64,
    zero_run_max: u64,
}

/// What is known of the window so far. Times are nanoseconds of a clock that does not step back.
pub struct TraceView {
    pub window_start: u64,
    pub last_buffer: Option<u64>,
    pub buffers: u64,
    pub frames: u64,
    /// The largest magnitude of a sample.
    pub peak: u16,
    /// The longest time between two buffers, in microseconds.
    pub max_gap_us: u64,
    /// Buffers of nothing but zeros.
    pub zeros: u64,
    /// The run of such buffers, which goes on from window to window.
    pub zero_run: u64,
    pub zero_run_max: u64,
}

/// A line of the trace.
#[derive(Clone, Copy, PartialEq, Eq, Structural, Debug)]
pub struct TraceLine {
    pub buffers: u64,
    pub frames: u64,
    pub peak: u16,
    pub zeros: u64,
    pub zero_run_max: u64,
    pub max_gap_us: u64,
    /// How long ago the last buffer came, in milliseconds.
    pub idle_ms: Option<u64>,
}

/// The greater of two numbers.
pub open spec fn greatest(a: u64, b: u64) -> u64 {
    if a < b {
        b
    } else {
        a
    }
}

/// The time from `then` to `now`; none where `now` is earlier.
pub open spec fn since(now: u64, then: u64) -> u64 {
    if now < then {
        0
    } else {
        (now - then) as u64
    }
}

impl View for TxTrace {
    type V = TraceView;

    closed spec fn view(&self) -> TraceView {
        TraceView {
            window_start: self.window_start,
            last_buffer: self.last_buffer,
            buffers: self.buffers,
            frames: self.frames,
            peak: self.peak,
            max_gap_us: self.max_gap_us,
            zeros: self.zeros,
            zero_run: self.zero_run,
            zero_run_max: self.zero_run_max,
        }
    }
}

impl TraceView {
    /// After a buffer at `now`.
    pub open spec fn heard(self, now: u64, frames: u64, peak: u16) -> Self {
        let run = if peak == 0 {
            self.zero_run.wrapping_add(1)
        } else {
            0
        };
        TraceView {
            last_buffer: Some(now),
            buffers: self.buffers.wrapping_add(1),
            frames: self.frames.wrapping_add(frames),
            peak: if self.peak < peak {
                peak
            } else {
                self.peak
            },
            max_gap_us: match self.last_buffer {
                Some(prev) => greatest(self.max_gap_us, since(now, prev) / 1000),
                None => self.max_gap_us,
            },
            zeros: if peak == 0 {
                self.zeros.wrapping_add(1)
            } else {
                self.zeros
            },
            zero_run: run,
            zero_run_max: greatest(self.zero_run_max, run),
            ..self
        }
    }

    /// Whether the window is over.
    pub open spec fn over(self, now: u64) -> bool {
        since(now, self.window_start) >= TRACE_WINDOW_NS
    }

    /// The line for the window.
    pub open spec fn line(self, now: u64) -> TraceLine {
        TraceLine {
            buffers: self.buffers,
            frames: self.frames,
            peak: self.peak,
            zeros: self.zeros,
            zero_run_max: self.zero_run_max,
            max_gap_us: self.max_gap_us,
            idle_ms: match self.last_buffer {
                Some(t) => Some(since(now, t) / 1_000_000),
                None => None,
            },
        }
    }

    /// The window that begins at `now`. A run of silence in progress goes on.
    pub open spec fn next(self, now: u64) -> Self {
        TraceView {
            window_start: now,
            buffers: 0,
            frames: 0,
            peak: 0,
            max_gap_us: 0,
            zeros: 0,
            zero_run_max: self.zero_run,
            ..self
        }
    }
}

impl TxTrace {
    pub fn new(now: u64) -> (r: Self)
        ensures
            r@ == (TraceView {
                window_start: now,
                last_buffer: None,
                buffers: 0,
                frames: 0,
                peak: 0,
                max_gap_us: 0,
                zeros: 0,
                zero_run: 0,
                zero_run_max: 0,
            }),
    {
        TxTrace {
            window_start: now,
            last_buffer: None,
            buffers: 0,
            frames: 0,
            peak: 0,
            max_gap_us: 0,
            zeros: 0,
            zero_run: 0,
            zero_run_max: 0,
        }
    }

    /// Takes a buffer into account: how many frames it has, and its loudest sample.
    pub fn buffer(&mut self, now: u64, frames: u64, peak: u16)
        ensures
            final(self)@ == old(self)@.heard(now, frames, peak),
    {
        match self.last_buffer {
            Some(prev) => {
                let gap: u64 = now.saturating_sub(prev) / 1000;
                if self.max_gap_us < gap {
                    self.max_gap_us = gap;
                }
            },
            None => {},
        }
        self.last_buffer = Some(now);
        self.buffers = self.buffers.wrapping_add(1);
        self.frames = self.frames.wrapping_add(frames);
        if self.peak < peak {
            self.peak = peak;
        }
        if peak == 0 {
            self.zeros = self.zeros.wrapping_add(1);
            self.zero_run = self.zero_run.wrapping_add(1);
            if self.zero_run_max < self.zero_run {
                self.zero_run_max = self.zero_run;
            }
        } else {
            self.zero_run = 0;
        }
    }

    /// The line for the window, once the window is over.
    pub fn flush(&mut self, now: u64) -> (r: Option<TraceLine>)
        ensures
            r == if old(self)@.over(now) {
                Some(old(self)@.line(now))
            } else {
                None
            },
            final(self)@ == if old(self)@.over(now) {
                old(self)@.next(now)
            } else {
                old(self)@
            },
    {
        if now.saturating_sub(self.window_start) < TRACE_WINDOW_NS {
            return None;
        }
        let idle_ms: Option<u64> = match self.last_buffer {
            Some(t) => Some(now.saturating_sub(t) / 1_000_000),
            None => None,
        };
        let line = TraceLine {
            buffers: self.buffers,
            frames: self.frames,
            peak: self.peak,
            zeros: self.zeros,
            zero_run_max: self.zero_run_max,
            max_gap_us: self.max_gap_us,
            idle_ms,
        };
        self.window_start = now;
        self.buffers = 0;
        self.frames = 0;
        self.peak = 0;
        self.max_gap_us = 0;
        self.zeros = 0;
        self.zero_run_max = self.zero_run;
        Some(line)
    }
}

} // verus!
