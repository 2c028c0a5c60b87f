//! The vsock device on a small virtqueue of its own.
use devices::vsock::device::{
    ActivateError, Vsock, VsockError, Wanted, AVAIL_FEATURES, NUM_QUEUES,
};
use devices::vsock::drain::{DrainReply, DrainRequest, RxDrain, TxDrain};

const VIRTIO_RING_F_EVENT_IDX: u64 = 29;

/// A driver that acks whatever the device offers.
const EVERYTHING: u64 = u64::MAX;

/// One queue as the device and the guest see it, with as much of the ring as the tests look at.
#[derive(Default)]
struct Queue {
    event_idx: bool,
    /// How many buffers the guest made available.
    avail_idx: u16,
    /// How far the guest wants to be interrupted.
    used_event: u16,
    /// How far the guest may run before it rings.
    avail_event: u16,
    next_avail: u16,
    next_used: u16,
    /// Buffers used since the guest was last asked.
    added: u16,
}

impl Queue {
    fn pop(&mut self) -> Option<u16> {
        if self.next_avail == self.avail_idx {
            return None;
        }
        self.next_avail = self.next_avail.wrapping_add(1);
        Some(self.next_avail.wrapping_sub(1))
    }

    fn undo_pop(&mut self) {
        self.next_avail = self.next_avail.wrapping_sub(1);
    }

    fn add_used(&mut self) {
        self.next_used = self.next_used.wrapping_add(1);
        self.added = self.added.wrapping_add(1);
    }

    fn enable_notification(&mut self) -> bool {
        if self.event_idx {
            self.avail_event = self.next_avail;
        }
        self.avail_idx != self.next_avail
    }

    fn needs_notification(&mut self) -> bool {
        let old = self.next_used.wrapping_sub(self.added);
        self.added = 0;
        if !self.event_idx {
            return true;
        }
        let past = self.next_used.wrapping_sub(self.used_event).wrapping_sub(1);
        past < self.next_used.wrapping_sub(old)
    }
}

struct Machine {
    vsock: Vsock,
    rx: Queue,
    tx: Queue,
    /// A packet is refused by where it goes.
    refuse: bool,
    sent: Vec<bool>,
    interrupts: u32,
}

fn activated(acked: u64) -> Machine {
    let mut vsock = Vsock::new(3);
    vsock.set_acked_features(acked & vsock.avail_features());
    let event_idx = vsock.acked_features() & (1 << VIRTIO_RING_F_EVENT_IDX) != 0;
    vsock.activate(NUM_QUEUES, true).unwrap();
    let queue = || Queue {
        event_idx,
        ..Default::default()
    };
    Machine {
        vsock,
        rx: queue(),
        tx: queue(),
        refuse: false,
        sent: Vec::new(),
        interrupts: 0,
    }
}

impl Machine {
    fn drain_tx(&mut self) -> bool {
        let mut d = TxDrain::process_stream_tx();
        while let Some(request) = d.next() {
            let reply = match request {
                DrainRequest::Pop => match self.tx.pop() {
                    Some(_) => DrainReply::Packet { dgram: false },
                    None => DrainReply::Empty,
                },
                DrainRequest::Send { dgram } => {
                    if self.refuse {
                        DrainReply::Refused
                    } else {
                        self.sent.push(dgram);
                        DrainReply::Done { len: 0 }
                    }
                }
                DrainRequest::AddUsed { len } => {
                    assert_eq!(len, 0);
                    self.tx.add_used();
                    DrainReply::Done { len: 0 }
                }
                DrainRequest::UndoPop => {
                    self.tx.undo_pop();
                    DrainReply::Done { len: 0 }
                }
                DrainRequest::EnableNotification => {
                    DrainReply::Raced(self.tx.enable_notification())
                }
                DrainRequest::Receive => unreachable!(),
            };
            d.advance(reply);
        }
        d.have_used
    }

    /// The guest posts a packet in this slot and rings.
    fn guest_sends(&mut self, slot: u16) {
        self.tx.avail_idx = slot + 1;
        if self.drain_tx() {
            let rx = Wanted::Says(self.rx.needs_notification() && self.rx.next_used > 0);
            let tx = Wanted::Says(self.tx.needs_notification());
            if self.vsock.needs_interrupt(rx, tx) {
                self.interrupts += 1;
            }
        }
    }

    fn take_interrupt(&mut self) -> bool {
        std::mem::take(&mut self.interrupts) > 0
    }
}

#[test]
fn a_drained_tx_queue_tells_the_guest_where_to_ring_next() {
    let mut m = activated(EVERYTHING);
    m.guest_sends(0);
    // The guest rings only once its index passes this value.
    assert_eq!(m.tx.avail_event, 1);
    m.vsock.reset();
}

#[test]
fn the_guest_is_interrupted_only_once_past_the_index_it_asked_for() {
    let mut m = activated(EVERYTHING);
    m.tx.used_event = 0;
    m.guest_sends(0);
    assert!(m.take_interrupt(), "used index 1 passes used_event 0");

    m.tx.used_event = 8;
    m.guest_sends(1);
    assert!(
        !m.take_interrupt(),
        "used index 2 has not passed used_event 8"
    );
    m.vsock.reset();
}

#[test]
fn a_guest_without_event_idx_is_interrupted_for_every_completion() {
    let mut m = activated(EVERYTHING & !(1 << VIRTIO_RING_F_EVENT_IDX));
    m.tx.used_event = 8;
    m.guest_sends(0);
    assert!(m.take_interrupt());
    m.guest_sends(1);
    assert!(m.take_interrupt());
    m.vsock.reset();
}

#[test]
fn a_stalled_drain_puts_the_packet_back() {
    let mut m = activated(EVERYTHING);
    m.refuse = true;
    m.tx.avail_idx = 2;
    assert!(!m.drain_tx());
    assert_eq!((m.tx.next_avail, m.tx.next_used), (0, 0));
    m.refuse = false;
    assert!(m.drain_tx());
    assert_eq!((m.tx.next_avail, m.tx.next_used), (2, 2));
    assert_eq!(m.sent, vec![false, false]);
}

#[test]
fn packets_that_race_the_bell_are_drained_in_another_pass() {
    let mut d = TxDrain::process_stream_tx();
    d.advance(DrainReply::Empty);
    assert_eq!(d.next(), Some(DrainRequest::EnableNotification));
    d.advance(DrainReply::Raced(true));
    assert_eq!(d.next(), Some(DrainRequest::Pop));
    d.advance(DrainReply::Malformed);
    // A buffer that is no packet goes back unsent.
    assert_eq!(d.next(), Some(DrainRequest::AddUsed { len: 0 }));
    d.advance(DrainReply::Done { len: 0 });
    d.advance(DrainReply::Packet { dgram: true });
    assert_eq!(d.next(), Some(DrainRequest::Send { dgram: true }));
    d.advance(DrainReply::Done { len: 0 });
    d.advance(DrainReply::Done { len: 0 });
    d.advance(DrainReply::Empty);
    d.advance(DrainReply::Raced(false));
    assert_eq!(d.next(), None);
    assert!(d.have_used);
}

#[test]
fn packets_for_the_guest_fill_its_buffers() {
    let mut d = RxDrain::process_stream_rx();
    d.advance(DrainReply::Packet { dgram: false });
    assert_eq!(d.next(), Some(DrainRequest::Receive));
    d.advance(DrainReply::Done { len: 44 });
    assert_eq!(d.next(), Some(DrainRequest::AddUsed { len: 44 }));
    d.advance(DrainReply::Done { len: 0 });
    d.advance(DrainReply::Malformed);
    assert_eq!(d.next(), Some(DrainRequest::AddUsed { len: 0 }));
    d.advance(DrainReply::Done { len: 0 });
    d.advance(DrainReply::Packet { dgram: false });
    // Nothing waits: the buffer is put back.
    d.advance(DrainReply::Refused);
    assert_eq!(d.next(), Some(DrainRequest::UndoPop));
    d.advance(DrainReply::Done { len: 0 });
    assert_eq!(d.next(), None);
    assert!(d.have_used);
    let mut empty = RxDrain::process_stream_rx();
    empty.advance(DrainReply::Empty);
    assert_eq!(empty.next(), None);
    assert!(!empty.have_used);
}

#[test]
fn the_id_is_read_whole_or_by_halves() {
    let dev = Vsock::new(0x1122_3344_5566_7788);
    assert_eq!((dev.id(), dev.cid()), ("virtio_vsock", 0x1122_3344_5566_7788));
    let mut whole = [0u8; 8];
    dev.read_config(0, &mut whole);
    assert_eq!(whole, 0x1122_3344_5566_7788u64.to_le_bytes());
    let mut half = [0u8; 4];
    dev.read_config(0, &mut half);
    assert_eq!(half, 0x5566_7788u32.to_le_bytes());
    dev.read_config(4, &mut half);
    assert_eq!(half, 0x1122_3344u32.to_le_bytes());
    // Nothing else is read.
    let mut odd = [9u8; 2];
    dev.read_config(0, &mut odd);
    dev.read_config(2, &mut odd);
    assert_eq!(odd, [9, 9]);
    let mut late = [9u8; 8];
    dev.read_config(4, &mut late);
    assert_eq!(late, [9; 8]);
}

#[test]
fn an_interrupt_is_wanted_by_either_queue() {
    let mut dev = Vsock::new(3);
    assert!(!dev.needs_interrupt(Wanted::Says(true), Wanted::Says(true)));
    assert_eq!(dev.activate(2, true), Err(ActivateError::BadActivate));
    assert_eq!(dev.activate(NUM_QUEUES, false), Err(ActivateError::BadActivate));
    assert_eq!(dev.activate(NUM_QUEUES, true), Ok(()));
    assert!(dev.is_activated());
    assert!(dev.needs_interrupt(Wanted::Says(true), Wanted::Says(false)));
    assert!(dev.needs_interrupt(Wanted::NoQueue, Wanted::Unknown));
    assert!(!dev.needs_interrupt(Wanted::NoQueue, Wanted::Says(false)));
    assert!(dev.reset());
    assert!(!dev.is_activated());
    assert_eq!(dev.avail_features(), AVAIL_FEATURES);
    assert_eq!(AVAIL_FEATURES, (1 << 32) | (1 << 35) | (1 << 3) | (1 << 29));
    assert_eq!(VsockError::EventFd(1), VsockError::EventFd(1));
}
