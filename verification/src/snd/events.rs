//! What wakes the device: its own thread's sources, and the shared loop that activates it.
use vstd::prelude::*;

verus! {

/// Something that the worker waits for.
#[derive(Clone, Copy, PartialEq, Eq, Structural, Debug)]
pub enum SndSource {
    Control,
    Tx,
    Rx,
    /// The audio units played or recorded.
    Completion,
    Stop,
}

impl SndSource {
    /// The number by which a wake names its source.
    pub open spec fn number(self) -> u64 {
        match self {
            SndSource::Control => 0,
            SndSource::Tx => 1,
            SndSource::Rx => 2,
            SndSource::Completion => 3,
            SndSource::Stop => 4,
        }
    }

    pub fn token(self) -> (r: u64)
        ensures
            r == self.number(),
    {
        match self {
            SndSource::Control => 0,
            SndSource::Tx => 1,
            SndSource::Rx => 2,
            SndSource::Completion => 3,
            SndSource::Stop => 4,
        }
    }
}

/// What the worker does about a wake.
#[derive(Clone, Copy, PartialEq, Eq, Structural, Debug)]
pub enum SndService {
    /// Serve the control queue; tell the guest if anything was used.
    Control,
    /// Serve the playback queue; tell the guest if anything was used.
    Tx,
    /// Fill buffers to record into.
    Rx,
    /// Give back what was played, and then, if the microphone is enabled, record.
    Reap { rx: bool },
    /// End, and take the audio units down with the thread that made them.
    Stop,
    /// Nothing waits under this number.
    Unexpected,
}

/// What is waited for: playback always, buffers to record into only with a microphone.
pub open spec fn waited_for(capture_enabled: bool) -> Seq<SndSource> {
    if capture_enabled {
        seq![
            SndSource::Control,
            SndSource::Tx,
            SndSource::Stop,
            SndSource::Rx,
            SndSource::Completion,
        ]
    } else {
        seq![SndSource::Control, SndSource::Tx, SndSource::Stop, SndSource::Completion]
    }
}

/// What is waited for.
pub fn interest(capture_enabled: bool) -> (r: Vec<SndSource>)
    ensures
        r@ == waited_for(capture_enabled),
{
    let mut r: Vec<SndSource> = Vec::new();
    r.push(SndSource::Control);
    r.push(SndSource::Tx);
    r.push(SndSource::Stop);
    if capture_enabled {
        r.push(SndSource::Rx);
    }
    r.push(SndSource::Completion);
    assert(r@ =~= waited_for(capture_enabled));
    r
}

/// What is done about a wake from a source.
pub open spec fn served(source: SndSource, capture_enabled: bool) -> SndService {
    match source {
        SndSource::Control => SndService::Control,
        SndSource::Tx => SndService::Tx,
        SndSource::Rx => SndService::Rx,
        SndSource::Completion => SndService::Reap { rx: capture_enabled },
        SndSource::Stop => SndService::Stop,
    }
}

/// What is done about a wake with this number.
pub fn service(token: u64, capture_enabled: bool) -> (r: SndService)
    ensures
        forall|s: SndSource|
            token == #[trigger] s.number() ==> r == served(s, capture_enabled),
        (forall|s: SndSource| token != #[trigger] s.number()) ==> r == SndService::Unexpected,
        token > 4 ==> r == SndService::Unexpected,
{
    proof {
        assert(SndSource::Control.number() == 0);
        assert(SndSource::Tx.number() == 1);
        assert(SndSource::Rx.number() == 2);
        assert(SndSource::Completion.number() == 3);
        assert(SndSource::Stop.number() == 4);
    }
    match token {
        0 => SndService::Control,
        1 => SndService::Tx,
        2 => SndService::Rx,
        3 => SndService::Reap { rx: capture_enabled },
        4 => SndService::Stop,
        _ => SndService::Unexpected,
    }
}

/// How a wait ended.
#[derive(Clone, Copy, PartialEq, Eq, Structural, Debug)]
pub enum WaitOutcome {
    Ready,
    Interrupted,
    Failed,
}

/// What follows a wait.
#[derive(Clone, Copy, PartialEq, Eq, Structural, Debug)]
pub enum AfterWait {
    Serve,
    WaitAgain,
    End,
}

/// A wait that was only interrupted is repeated; one that failed ends the worker.
pub fn after_wait(outcome: WaitOutcome) -> (r: AfterWait)
    ensures
        r == match outcome {
            WaitOutcome::Ready => AfterWait::Serve,
            WaitOutcome::Interrupted => AfterWait::WaitAgain,
            WaitOutcome::Failed => AfterWait::End,
        },
{
    match outcome {
        WaitOutcome::Ready => AfterWait::Serve,
        WaitOutcome::Interrupted => AfterWait::WaitAgain,
        WaitOutcome::Failed => AfterWait::End,
    }
}

/// The descriptors that a device on a shared loop is woken by.
#[derive(Clone, Copy, PartialEq, Eq, Structural, Debug)]
pub struct LoopFds {
    pub activate: i32,
    pub control: i32,
    pub tx: i32,
}

/// What a wake on a shared loop leads to.
#[derive(Clone, Copy, PartialEq, Eq, Structural, Debug)]
pub enum Route {
    /// Take the activation up: wait for the queues from now on, and no longer for it.
    Activate,
    Control,
    Tx,
    /// The wake is for a queue, but says something other than that it has something.
    WrongEvent,
    UnknownFd,
    /// The device is not active yet.
    Spurious,
}

/// Where a wake from `source` leads; `readable` says whether it is that something can be read.
pub open spec fn routed(fds: LoopFds, source: i32, readable: bool, activated: bool) -> Route {
    if source == fds.activate {
        Route::Activate
    } else if !activated {
        Route::Spurious
    } else if source != fds.control && source != fds.tx {
        Route::UnknownFd
    } else if !readable {
        Route::WrongEvent
    } else if source == fds.control {
        Route::Control
    } else {
        Route::Tx
    }
}

/// Where a wake leads.
pub fn route(fds: &LoopFds, source: i32, readable: bool, activated: bool) -> (r: Route)
    ensures
        r == routed(*fds, source, readable, activated),
{
    if source == fds.activate {
        Route::Activate
    } else if activated {
        if source == fds.control {
            if readable {
                Route::Control
            } else {
                Route::WrongEvent
            }
        } else if source == fds.tx {
            if readable {
                Route::Tx
            } else {
                Route::WrongEvent
            }
        } else {
            Route::UnknownFd
        }
    } else {
        Route::Spurious
    }
}

/// Whatever is waited for is served when it wakes, and each source has a number of its own.
pub proof fn law_every_source_is_served(a: SndSource, b: SndSource, capture_enabled: bool)
    ensures
        a.number() == b.number() <==> a == b,
        served(a, capture_enabled) != SndService::Unexpected,
        waited_for(capture_enabled).contains(a) <==> (a != SndSource::Rx || capture_enabled),
{
    let w = waited_for(capture_enabled);
    assert(w[0] == SndSource::Control);
    assert(w[1] == SndSource::Tx);
    assert(w[2] == SndSource::Stop);
    if capture_enabled {
        assert(w[3] == SndSource::Rx);
        assert(w[4] == SndSource::Completion);
    } else {
        assert(w[3] == SndSource::Completion);
    }
}

} // verus!
