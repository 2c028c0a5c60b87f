//! Draining the two queues of packets.
//!
//! What is done to a queue or a packet is done outside: a drain says what comes next, and is told
//! how it went.
use vstd::prelude::*;

verus! {

/// What a drain asks for.
#[derive(Clone, Copy, PartialEq, Eq, Structural, Debug)]
pub enum DrainRequest {
    /// Take the next buffer of the guest's and look at it.
    Pop,
    /// Hand the packet in it on: to the datagrams, or to the streams.
    Send { dgram: bool },
    /// Fill the buffer with the next packet for the guest.
    Receive,
    /// Give the buffer back, with so many bytes in it.
    AddUsed { len: u32 },
    /// Put the buffer back to where it was taken from.
    UndoPop,
    /// Say how far the guest may run before it rings again.
    EnableNotification,
}

/// What a drain is told.
#[derive(Clone, Copy, PartialEq, Eq, Structural, Debug)]
pub enum DrainReply {
    /// The guest has no more buffers.
    Empty,
    /// A buffer that is no packet.
    Malformed,
    /// A buffer with a packet from the guest, or for one to the guest.
    Packet { dgram: bool },
    /// It went well; a packet for the guest has so many bytes, with its header.
    Done { len: u32 },
    /// It did not go.
    Refused,
    /// Whether the guest put more in before it was told.
    Raced(bool),
}

/// Where a drain of the guest's packets is.
#[derive(Clone, Copy, PartialEq, Eq, Structural, Debug)]
pub enum TxPhase {
    Popping,
    Sending { dgram: bool },
    Returning,
    Undoing,
    Announcing,
    Over,
}

/// A drain of the packets that the guest sends.
#[derive(Clone, Copy, PartialEq, Eq, Structural, Debug)]
pub struct TxDrain {
    pub phase: TxPhase,
    /// A packet found no room where it goes: the rest waits.
    pub stalled: bool,
    /// A buffer was given back.
    pub have_used: bool,
}

impl TxDrain {
    pub open spec fn start() -> Self {
        TxDrain { phase: TxPhase::Popping, stalled: false, have_used: false }
    }

    /// What comes next.
    pub open spec fn due(self) -> Option<DrainRequest> {
        match self.phase {
            TxPhase::Popping => Some(DrainRequest::Pop),
            TxPhase::Sending { dgram } => Some(DrainRequest::Send { dgram }),
            TxPhase::Returning => Some(DrainRequest::AddUsed { len: 0 }),
            TxPhase::Undoing => Some(DrainRequest::UndoPop),
            TxPhase::Announcing => Some(DrainRequest::EnableNotification),
            TxPhase::Over => None,
        }
    }

    /// After a reply. Packets that came in while the guest was being told are drained in another
    /// pass, unless the drain is stalled.
    pub open spec fn after(self, reply: DrainReply) -> Self {
        match self.phase {
            TxPhase::Popping => match reply {
                DrainReply::Packet { dgram } => TxDrain {
                    phase: TxPhase::Sending { dgram },
                    ..self
                },
                DrainReply::Malformed => TxDrain { phase: TxPhase::Returning, ..self },
                _ => TxDrain { phase: TxPhase::Announcing, ..self },
            },
            TxPhase::Sending { .. } => if reply == DrainReply::Refused {
                TxDrain { phase: TxPhase::Undoing, stalled: true, ..self }
            } else {
                TxDrain { phase: TxPhase::Returning, ..self }
            },
            TxPhase::Returning => TxDrain { phase: TxPhase::Popping, have_used: true, ..self },
            TxPhase::Undoing => TxDrain { phase: TxPhase::Announcing, ..self },
            TxPhase::Announcing => if reply == DrainReply::Raced(true) && !self.stalled {
                TxDrain { phase: TxPhase::Popping, ..self }
            } else {
                TxDrain { phase: TxPhase::Over, ..self }
            },
            TxPhase::Over => self,
        }
    }

    /// After these replies, one behind the other.
    pub open spec fn after_all(self, replies: Seq<DrainReply>) -> Self
        decreases replies.len(),
    {
        if replies.len() == 0 {
            self
        } else {
            self.after_all(replies.drop_last()).after(replies.last())
        }
    }

    pub fn process_stream_tx() -> (r: Self)
        ensures
            r == Self::start(),
    {
        TxDrain { phase: TxPhase::Popping, stalled: false, have_used: false }
    }

    /// What comes next; nothing when the drain is over.
    pub fn next(&self) -> (r: Option<DrainRequest>)
        ensures
            r == self.due(),
    {
        match self.phase {
            TxPhase::Popping => Some(DrainRequest::Pop),
            TxPhase::Sending { dgram } => Some(DrainRequest::Send { dgram }),
            TxPhase::Returning => Some(DrainRequest::AddUsed { len: 0 }),
            TxPhase::Undoing => Some(DrainRequest::UndoPop),
            TxPhase::Announcing => Some(DrainRequest::EnableNotification),
            TxPhase::Over => None,
        }
    }

    /// Takes a reply.
    pub fn advance(&mut self, reply: DrainReply)
        ensures
            *final(self) == old(self).after(reply),
    {
        match self.phase {
            TxPhase::Popping => match reply {
                DrainReply::Packet { dgram } => {
                    self.phase = TxPhase::Sending { dgram };
                },
                DrainReply::Malformed => {
                    self.phase = TxPhase::Returning;
                },
                _ => {
                    self.phase = TxPhase::Announcing;
                },
            },
            TxPhase::Sending { .. } => {
                if reply == DrainReply::Refused {
                    self.stalled = true;
                    self.phase = TxPhase::Undoing;
                } else {
                    self.phase = TxPhase::Returning;
                }
            },
            TxPhase::Returning => {
                self.have_used = true;
                self.phase = TxPhase::Popping;
            },
            TxPhase::Undoing => {
                self.phase = TxPhase::Announcing;
            },
            TxPhase::Announcing => {
                self.phase = if reply == DrainReply::Raced(true) && !self.stalled {
                    TxPhase::Popping
                } else {
                    TxPhase::Over
                };
            },
            TxPhase::Over => {},
        }
    }
}

/// Where a drain of the packets for the guest is.
#[derive(Clone, Copy, PartialEq, Eq, Structural, Debug)]
pub enum RxPhase {
    Popping,
    Receiving,
    Returning { len: u32 },
    Undoing,
    Over,
}

/// A drain of the packets for the guest into its buffers.
#[derive(Clone, Copy, PartialEq, Eq, Structural, Debug)]
pub struct RxDrain {
    pub phase: RxPhase,
    /// A buffer was given back.
    pub have_used: bool,
}

impl RxDrain {
    pub open spec fn start() -> Self {
        RxDrain { phase: RxPhase::Popping, have_used: false }
    }

    /// What comes next.
    pub open spec fn due(self) -> Option<DrainRequest> {
        match self.phase {
            RxPhase::Popping => Some(DrainRequest::Pop),
            RxPhase::Receiving => Some(DrainRequest::Receive),
            RxPhase::Returning { len } => Some(DrainRequest::AddUsed { len }),
            RxPhase::Undoing => Some(DrainRequest::UndoPop),
            RxPhase::Over => None,
        }
    }

    /// After a reply. Where no packet waits for a buffer, the buffer goes back to where it was
    /// taken from.
    pub open spec fn after(self, reply: DrainReply) -> Self {
        match self.phase {
            RxPhase::Popping => match reply {
                DrainReply::Packet { .. } => RxDrain { phase: RxPhase::Receiving, ..self },
                DrainReply::Malformed => RxDrain { phase: RxPhase::Returning { len: 0 }, ..self },
                _ => RxDrain { phase: RxPhase::Over, ..self },
            },
            RxPhase::Receiving => match reply {
                DrainReply::Done { len } => RxDrain { phase: RxPhase::Returning { len }, ..self },
                _ => RxDrain { phase: RxPhase::Undoing, ..self },
            },
            RxPhase::Returning { .. } => RxDrain { phase: RxPhase::Popping, have_used: true },
            RxPhase::Undoing => RxDrain { phase: RxPhase::Over, ..self },
            RxPhase::Over => self,
        }
    }

    /// After these replies, one behind the other.
    pub open spec fn after_all(self, replies: Seq<DrainReply>) -> Self
        decreases replies.len(),
    {
        if replies.len() == 0 {
            self
        } else {
            self.after_all(replies.drop_last()).after(replies.last())
        }
    }

    /// How many buffers the drain took, less those that it gave back or put back.
    pub open spec fn held(self) -> nat {
        match self.phase {
            RxPhase::Receiving => 1,
            RxPhase::Returning { .. } => 1,
            RxPhase::Undoing => 1,
            _ => 0,
        }
    }

    /// The number of the replies for which a buffer was taken.
    pub open spec fn taken(self, replies: Seq<DrainReply>) -> nat
        decreases replies.len(),
    {
        if replies.len() == 0 {
            0
        } else {
            let popping = self.after_all(replies.drop_last()).due() == Some(DrainRequest::Pop);
            self.taken(replies.drop_last()) + (if popping && (replies.last() is Packet
                || replies.last() is Malformed) {
                1nat
            } else {
                0
            })
        }
    }

    /// The number of the replies by which a buffer was given back.
    pub open spec fn returned(self, replies: Seq<DrainReply>) -> nat
        decreases replies.len(),
    {
        if replies.len() == 0 {
            0
        } else {
            let asked = self.after_all(replies.drop_last()).due();
            self.returned(replies.drop_last()) + (if asked matches Some(
                DrainRequest::AddUsed { .. },
            ) {
                1nat
            } else {
                0
            })
        }
    }

    /// The number of the replies by which a buffer was put back.
    pub open spec fn undone(self, replies: Seq<DrainReply>) -> nat
        decreases replies.len(),
    {
        if replies.len() == 0 {
            0
        } else {
            let asked = self.after_all(replies.drop_last()).due();
            self.undone(replies.drop_last()) + (if asked == Some(DrainRequest::UndoPop) {
                1nat
            } else {
                0
            })
        }
    }

    pub fn process_stream_rx() -> (r: Self)
        ensures
            r == Self::start(),
    {
        RxDrain { phase: RxPhase::Popping, have_used: false }
    }

    /// What comes next; nothing when the drain is over.
    pub fn next(&self) -> (r: Option<DrainRequest>)
        ensures
            r == self.due(),
    {
        match self.phase {
            RxPhase::Popping => Some(DrainRequest::Pop),
            RxPhase::Receiving => Some(DrainRequest::Receive),
            RxPhase::Returning { len } => Some(DrainRequest::AddUsed { len }),
            RxPhase::Undoing => Some(DrainRequest::UndoPop),
            RxPhase::Over => None,
        }
    }

    /// Takes a reply.
    pub fn advance(&mut self, reply: DrainReply)
        ensures
            *final(self) == old(self).after(reply),
    {
        match self.phase {
            RxPhase::Popping => match reply {
                DrainReply::Packet { .. } => {
                    self.phase = RxPhase::Receiving;
                },
                DrainReply::Malformed => {
                    self.phase = RxPhase::Returning { len: 0 };
                },
                _ => {
                    self.phase = RxPhase::Over;
                },
            },
            RxPhase::Receiving => match reply {
                DrainReply::Done { len } => {
                    self.phase = RxPhase::Returning { len };
                },
                _ => {
                    self.phase = RxPhase::Undoing;
                },
            },
            RxPhase::Returning { .. } => {
                self.have_used = true;
                self.phase = RxPhase::Popping;
            },
            RxPhase::Undoing => {
                self.phase = RxPhase::Over;
            },
            RxPhase::Over => {},
        }
    }
}

/// How many buffers a drain took, less those that it gave back or put back.
pub open spec fn held(d: TxDrain) -> nat {
    match d.phase {
        TxPhase::Sending { .. } => 1,
        TxPhase::Returning => 1,
        TxPhase::Undoing => 1,
        _ => 0,
    }
}

/// The number of the replies for which a buffer was taken.
pub open spec fn taken(d: TxDrain, replies: Seq<DrainReply>) -> nat
    decreases replies.len(),
{
    if replies.len() == 0 {
        0
    } else {
        let before = d.after_all(replies.drop_last());
        taken(d, replies.drop_last()) + (if before.phase == TxPhase::Popping && (replies.last()
            is Packet || replies.last() is Malformed) {
            1nat
        } else {
            0
        })
    }
}

/// The number of the replies by which a buffer was given back.
pub open spec fn returned(d: TxDrain, replies: Seq<DrainReply>) -> nat
    decreases replies.len(),
{
    if replies.len() == 0 {
        0
    } else {
        let before = d.after_all(replies.drop_last());
        returned(d, replies.drop_last()) + (if before.phase == TxPhase::Returning {
            1nat
        } else {
            0
        })
    }
}

/// The number of the replies by which a buffer was put back.
pub open spec fn undone(d: TxDrain, replies: Seq<DrainReply>) -> nat
    decreases replies.len(),
{
    if replies.len() == 0 {
        0
    } else {
        let before = d.after_all(replies.drop_last());
        undone(d, replies.drop_last()) + (if before.phase == TxPhase::Undoing {
            1nat
        } else {
            0
        })
    }
}

/// No buffer is lost: each one that a drain took is given back or put back, once, before the drain
/// is over. The guest is interrupted exactly when one was given back.
pub proof fn law_no_buffer_is_lost(replies: Seq<DrainReply>)
    ensures
        taken(TxDrain::start(), replies) == returned(TxDrain::start(), replies) + undone(
            TxDrain::start(),
            replies,
        ) + held(TxDrain::start().after_all(replies)),
        TxDrain::start().after_all(replies).have_used == (returned(TxDrain::start(), replies) > 0),
        TxDrain::start().after_all(replies).phase == TxPhase::Over ==> held(
            TxDrain::start().after_all(replies),
        ) == 0,
    decreases replies.len(),
{
    if replies.len() > 0 {
        law_no_buffer_is_lost(replies.drop_last());
    }
}

/// No buffer for the guest's packets is lost either: each one that a drain took is given back or
/// put back, once, before the drain is over. The guest is interrupted exactly when one was given
/// back.
pub proof fn law_no_rx_buffer_is_lost(replies: Seq<DrainReply>)
    ensures
        ({
            let start = RxDrain::start();
            let d = start.after_all(replies);
            &&& start.taken(replies) == start.returned(replies) + start.undone(replies) + d.held()
            &&& d.have_used == (start.returned(replies) > 0)
            &&& d.phase == RxPhase::Over ==> d.held() == 0
        }),
    decreases replies.len(),
{
    if replies.len() > 0 {
        law_no_rx_buffer_is_lost(replies.drop_last());
    }
}

/// A drain that ends has told the guest how far to run, and found nothing that came in meanwhile,
/// unless it is stalled: so no packet waits for a bell that the guest will not ring.
pub proof fn law_guest_is_told_before_the_end(replies: Seq<DrainReply>)
    requires
        replies.len() > 0,
        TxDrain::start().after_all(replies).phase == TxPhase::Over,
        TxDrain::start().after_all(replies.drop_last()).phase != TxPhase::Over,
    ensures
        TxDrain::start().after_all(replies.drop_last()).due() == Some(
            DrainRequest::EnableNotification,
        ),
        replies.last() != DrainReply::Raced(true) || TxDrain::start().after_all(
            replies.drop_last(),
        ).stalled,
{
}

/// A packet from the guest goes to the datagrams or to the streams as it says, and its buffer comes
/// back empty. One that finds no room is put back, and the drain ends: it stays the first of those
/// that wait, and what comes in meanwhile does not start another pass. What is no packet is passed
/// over.
pub proof fn law_packets_from_the_guest(d: TxDrain, dgram: bool, raced: bool, len: u32)
    requires
        d.phase == TxPhase::Popping,
        !d.stalled,
    ensures
        ({
            let sending = d.after(DrainReply::Packet { dgram });
            let sent = sending.after(DrainReply::Done { len });
            let refused = sending.after(DrainReply::Refused);
            let told = d.after(DrainReply::Empty);
            &&& d.due() == Some(DrainRequest::Pop)
            &&& sending.due() == Some(DrainRequest::Send { dgram })
            &&& sent.due() == Some(DrainRequest::AddUsed { len: 0 })
            &&& sent.after(DrainReply::Done { len }).due() == Some(DrainRequest::Pop)
            &&& sent.after(DrainReply::Done { len }).have_used
            &&& refused.due() == Some(DrainRequest::UndoPop)
            &&& refused.have_used == d.have_used
            &&& refused.after(DrainReply::Done { len }).due() == Some(
                DrainRequest::EnableNotification,
            )
            &&& refused.after(DrainReply::Done { len }).after(DrainReply::Raced(raced)).due() is None
            &&& d.after(DrainReply::Malformed).due() == Some(DrainRequest::AddUsed { len: 0 })
            &&& told.due() == Some(DrainRequest::EnableNotification)
            &&& told.after(DrainReply::Raced(true)).due() == Some(DrainRequest::Pop)
            &&& told.after(DrainReply::Raced(false)).due() is None
        }),
{
}

/// A buffer of the guest's is filled with the next packet for it and comes back with as many bytes
/// as the packet has. Where no packet waits it is put back, and the drain ends; what cannot hold a
/// packet comes back empty.
pub proof fn law_packets_for_the_guest(d: RxDrain, dgram: bool, len: u32, n: u32)
    requires
        d.phase == RxPhase::Popping,
    ensures
        ({
            let filling = d.after(DrainReply::Packet { dgram });
            let filled = filling.after(DrainReply::Done { len });
            let none = filling.after(DrainReply::Refused);
            &&& d.due() == Some(DrainRequest::Pop)
            &&& filling.due() == Some(DrainRequest::Receive)
            &&& filled.due() == Some(DrainRequest::AddUsed { len })
            &&& filled.after(DrainReply::Done { len: n }).due() == Some(DrainRequest::Pop)
            &&& filled.after(DrainReply::Done { len: n }).have_used
            &&& none.due() == Some(DrainRequest::UndoPop)
            &&& none.have_used == d.have_used
            &&& none.after(DrainReply::Done { len: n }).due() is None
            &&& d.after(DrainReply::Malformed).due() == Some(DrainRequest::AddUsed { len: 0 })
            &&& d.after(DrainReply::Empty).due() is None
        }),
{
}

} // verus!
