//! A port of the console: what it is made of, and who holds its queues while it runs.
//!
//! A side of a port that has an input or an output runs a thread, which has that side's queue and
//! gives it back when it ends. A side that has none keeps its queue in the port. Either way the
//! device gets both queues back when the port is shut down, and can start it again.
use vstd::prelude::*;
use vstd::string::*;

verus! {

/// What a port is made of.
pub struct PortDescription<I, O, T> {
    pub name: String,
    pub input: Option<I>,
    pub output: Option<O>,
    pub terminal: Option<T>,
}

impl<I, O, T> PortDescription<I, O, T> {
    /// A port for a terminal, without a name.
    pub fn console(input: Option<I>, output: Option<O>, terminal: T) -> (r: Self)
        ensures
            r.name@ == ""@,
            r.input == input,
            r.output == output,
            r.terminal == Some(terminal),
    {
        PortDescription {
            name: String::from_str(""),
            input,
            output,
            terminal: Some(terminal),
        }
    }

    /// A port that the guest writes to.
    pub fn output_pipe(name: String, output: O) -> (r: Self)
        ensures
            r.name@ == name@,
            r.input is None,
            r.output == Some(output),
            r.terminal is None,
    {
        PortDescription { name, input: None, output: Some(output), terminal: None }
    }

    /// A port that the guest reads from.
    pub fn input_pipe(name: String, input: I) -> (r: Self)
        ensures
            r.name@ == name@,
            r.input == Some(input),
            r.output is None,
            r.terminal is None,
    {
        PortDescription { name, input: Some(input), output: None, terminal: None }
    }
}

/// Where the two queues of a port are.
enum PortState<Q> {
    Inactive,
    Active { rx_thread: bool, tx_thread: bool, idle_rx: Option<Q>, idle_tx: Option<Q> },
}

/// Where a queue is.
pub enum Side<Q> {
    /// With a thread.
    Thread,
    /// With the port; not even there, once it was taken.
    Idle(Option<Q>),
}

pub struct Port<Q> {
    port_id: u32,
    name: String,
    has_input: bool,
    has_output: bool,
    state: PortState<Q>,
}

pub struct PortView<Q> {
    pub port_id: u32,
    pub name: Seq<char>,
    pub has_input: bool,
    pub has_output: bool,
    /// The two sides, while the port runs.
    pub sides: Option<(Side<Q>, Side<Q>)>,
}

impl<Q> View for Port<Q> {
    type V = PortView<Q>;

    closed spec fn view(&self) -> PortView<Q> {
        PortView {
            port_id: self.port_id,
            name: self.name@,
            has_input: self.has_input,
            has_output: self.has_output,
            sides: match self.state {
                PortState::Inactive => None,
                PortState::Active { rx_thread, tx_thread, idle_rx, idle_tx } => Some(
                    (
                        if rx_thread {
                            Side::Thread
                        } else {
                            Side::Idle(idle_rx)
                        },
                        if tx_thread {
                            Side::Thread
                        } else {
                            Side::Idle(idle_tx)
                        },
                    ),
                ),
            },
        }
    }
}

/// The threads that a port starts with, each with its queue.
pub struct Threads<Q> {
    pub rx: Option<Q>,
    pub tx: Option<Q>,
}

/// What a side gives back: what its thread gave, or what the port kept.
pub open spec fn given<Q>(side: Side<Q>, joined: Option<Q>) -> Option<Q> {
    match side {
        Side::Thread => joined,
        Side::Idle(q) => q,
    }
}

impl<Q> PortView<Q> {
    /// Whether a thread serves the guest's reads.
    pub open spec fn reads(self) -> bool {
        self.sides matches Some((rx, _)) && rx is Thread
    }

    /// Whether a thread serves the guest's writes.
    pub open spec fn writes(self) -> bool {
        self.sides matches Some((_, tx)) && tx is Thread
    }

    /// After the port was started with these queues.
    pub open spec fn started(self, rx: Q, tx: Q) -> Self {
        PortView {
            sides: Some(
                (
                    if self.has_input {
                        Side::Thread
                    } else {
                        Side::Idle(Some(rx))
                    },
                    if self.has_output {
                        Side::Thread
                    } else {
                        Side::Idle(Some(tx))
                    },
                ),
            ),
            ..self
        }
    }

    /// The queues that a shutdown gives back, where the threads gave these.
    pub open spec fn queues(self, rx_joined: Option<Q>, tx_joined: Option<Q>) -> (
        Option<Q>,
        Option<Q>,
    ) {
        match self.sides {
            None => (None, None),
            Some((rx, tx)) => (given(rx, rx_joined), given(tx, tx_joined)),
        }
    }
}

impl<Q> Port<Q> {
    /// A port that does not run.
    pub fn new<I, O, T>(port_id: u32, description: &PortDescription<I, O, T>) -> (r: Self)
        ensures
            r@ == (PortView::<Q> {
                port_id,
                name: description.name@,
                has_input: description.input is Some,
                has_output: description.output is Some,
                sides: None,
            }),
    {
        let mut name = String::from_str("");
        name.append(description.name.as_str());
        proof {
            reveal_strlit("");
            assert(name@ =~= description.name@);
        }
        Port {
            port_id,
            name,
            has_input: description.input.is_some(),
            has_output: description.output.is_some(),
            state: PortState::Inactive,
        }
    }

    pub fn name(&self) -> (r: &str)
        ensures
            r@ == self@.name,
    {
        self.name.as_str()
    }

    pub fn is_active(&self) -> (r: bool)
        ensures
            r == self@.sides is Some,
    {
        match &self.state {
            PortState::Inactive => false,
            PortState::Active { .. } => true,
        }
    }

    /// Whether the thread that serves the guest's reads is to be woken, because there is one.
    pub fn notify_rx(&self) -> (r: bool)
        ensures
            r == self@.reads(),
    {
        match &self.state {
            PortState::Inactive => false,
            PortState::Active { rx_thread, .. } => *rx_thread,
        }
    }

    /// Whether the thread that serves the guest's writes is to be woken, because there is one.
    pub fn notify_tx(&self) -> (r: bool)
        ensures
            r == self@.writes(),
    {
        match &self.state {
            PortState::Inactive => false,
            PortState::Active { tx_thread, .. } => *tx_thread,
        }
    }

    /// Starts the port. Gives the queues for the threads that are to be started. The queues of a
    /// run that it was in the middle of are dropped: the threads of that run end first.
    pub fn start(&mut self, rx: Q, tx: Q) -> (r: Threads<Q>)
        ensures
            final(self)@ == old(self)@.started(rx, tx),
            r.rx == if old(self)@.has_input {
                Some(rx)
            } else {
                None
            },
            r.tx == if old(self)@.has_output {
                Some(tx)
            } else {
                None
            },
    {
        let (spawn_rx, idle_rx) = if self.has_input {
            (Some(rx), None)
        } else {
            (None, Some(rx))
        };
        let (spawn_tx, idle_tx) = if self.has_output {
            (Some(tx), None)
        } else {
            (None, Some(tx))
        };
        self.state = PortState::Active {
            rx_thread: self.has_input,
            tx_thread: self.has_output,
            idle_rx,
            idle_tx,
        };
        Threads { rx: spawn_rx, tx: spawn_tx }
    }

    /// Shuts the port down, after its threads ended and gave these queues: none where one panicked.
    /// Gives back what there is of the two queues. A port that does not run has none.
    pub fn shutdown(&mut self, rx_joined: Option<Q>, tx_joined: Option<Q>) -> (r: (
        Option<Q>,
        Option<Q>,
    ))
        ensures
            r == old(self)@.queues(rx_joined, tx_joined),
            final(self)@ == (PortView { sides: None, ..old(self)@ }),
    {
        let mut state: PortState<Q> = PortState::Inactive;
        std::mem::swap(&mut state, &mut self.state);
        match state {
            PortState::Inactive => (None, None),
            PortState::Active { rx_thread, tx_thread, idle_rx, idle_tx } => {
                let rx = if rx_thread {
                    rx_joined
                } else {
                    idle_rx
                };
                let tx = if tx_thread {
                    tx_joined
                } else {
                    idle_tx
                };
                (rx, tx)
            },
        }
    }
}

/// Both queues come back from a port whose threads give theirs back, whatever it has of input and
/// output; a second shutdown gives none.
pub proof fn law_queues_come_back<Q>(v: PortView<Q>, rx: Q, tx: Q)
    ensures
        v.started(rx, tx).queues(Some(rx), Some(tx)) == (Some(rx), Some(tx)),
        (PortView { sides: None, ..v.started(rx, tx) }).queues(Some(rx), Some(tx)) == (
            None::<Q>,
            None::<Q>,
        ),
        v.started(rx, tx).reads() == v.has_input,
        v.started(rx, tx).writes() == v.has_output,
{
}

/// A thread that panicked loses its own queue and no other.
pub proof fn law_panic_loses_one_queue<Q>(v: PortView<Q>, rx: Q, tx: Q)
    ensures
        v.started(rx, tx).queues(None, Some(tx)).1 == Some(tx),
        v.started(rx, tx).queues(Some(rx), None).0 == Some(rx),
        !v.has_input ==> v.started(rx, tx).queues(None, Some(tx)).0 == Some(rx),
        !v.has_output ==> v.started(rx, tx).queues(Some(rx), None).1 == Some(tx),
{
}

} // verus!
