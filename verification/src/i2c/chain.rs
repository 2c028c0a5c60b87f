//! A request of the guest's, read out of its memory.
use crate::guest_memory;
use crate::guest_memory::read_bytes;
use crate::i2c::battery;
use crate::i2c::battery::BatteryState;
use crate::i2c::device;
use crate::i2c::device::{check_shape, I2c, I2cBuffer, I2cHeader, I2cStep, I2cView};
use vm_memory::GuestMemoryMmap;
use vstd::prelude::*;

verus! {

/// What is left to do of a request.
pub enum I2cDue {
    /// Nothing: it goes back as it came.
    Nothing,
    /// It is answered with success or failure.
    Answer(I2cHeader, bool),
    /// These bytes go into its buffer. It succeeds if they can be written.
    Write(I2cHeader, Vec<u8>),
}

pub enum DueView {
    Nothing,
    Answer(I2cHeader, bool),
    Write(I2cHeader, Seq<u8>),
}

impl View for I2cDue {
    type V = DueView;

    open spec fn view(&self) -> DueView {
        match *self {
            I2cDue::Nothing => DueView::Nothing,
            I2cDue::Answer(h, ok) => DueView::Answer(h, ok),
            I2cDue::Write(h, b) => DueView::Write(h, b@),
        }
    }
}

impl I2cView {
    /// A request taken up: `header` and `data` are what its first and its second buffer hold, and
    /// `state` is the host's battery, for a request that asks for them.
    pub open spec fn taken_up(
        self,
        regions: Seq<(u64, u64)>,
        bufs: Seq<I2cBuffer>,
        header: Seq<u8>,
        data: Seq<u8>,
        state: BatteryState,
    ) -> (Self, DueView) {
        if !device::well_shaped(bufs) || !guest_memory::spans(regions, bufs[0].addr as int, 8) {
            (self, DueView::Nothing)
        } else {
            let h = device::header_of(header);
            match self.begin(h, bufs) {
                I2cStep::Settled(ok) => (self, DueView::Answer(h, ok)),
                I2cStep::Read(len) => (
                    self,
                    match battery::register(self.battery.command, self.battery.mode, state) {
                        Some(full) => DueView::Write(h, battery::resized(full, len as nat)),
                        None => DueView::Answer(h, false),
                    },
                ),
                I2cStep::Fetch(len) => if guest_memory::spans(
                    regions,
                    bufs[1].addr as int,
                    len as int,
                ) {
                    (
                        I2cView { battery: self.battery.written(data), ..self },
                        DueView::Answer(h, true),
                    )
                } else {
                    (self, DueView::Answer(h, false))
                },
            }
        }
    }
}

/// A request's header and data are as long as it says.
pub open spec fn read_of(bufs: Seq<I2cBuffer>, header: Seq<u8>, data: Seq<u8>) -> bool {
    &&& header.len() == 8
    &&& bufs.len() == 3 ==> data.len() == bufs[1].len
}

impl I2c {
    /// Takes a request up, as far as it can be before anything is written: its header is read, its
    /// buffer is handed to the battery, or the battery's register is fetched for it. `provider` says
    /// what the host's battery looks like now; only a request for a register asks it.
    pub fn process_chain<F: Fn() -> BatteryState>(
        &mut self,
        mem: &GuestMemoryMmap,
        bufs: &[I2cBuffer],
        provider: &F,
    ) -> (r: I2cDue)
        requires
            call_requires(provider, ()),
        ensures
            exists|header: Seq<u8>, data: Seq<u8>, state: BatteryState|
                {
                    &&& read_of(bufs@, header, data)
                    &&& (final(self)@, r@) == #[trigger] old(self)@.taken_up(
                        guest_memory::guest_regions(*mem),
                        bufs@,
                        header,
                        data,
                        state,
                    )
                    &&& r is Write ==> call_ensures(provider, (), state)
                },
    {
        let ghost regions = guest_memory::guest_regions(*mem);
        let ghost before = self@;
        let ghost mut state: BatteryState = BatteryState {
            percent: 0,
            charging: false,
            ac_online: false,
            time_to_empty_min: None,
            time_to_full_min: None,
            cycle_count: None,
        };
        let ghost mut header: Seq<u8> = Seq::new(8, |i: int| 0u8);
        let ghost mut data: Seq<u8> = Seq::new(
            if bufs@.len() == 3 {
                bufs@[1].len as nat
            } else {
                0
            },
            |i: int| 0u8,
        );
        assert(read_of(bufs@, header, data));
        if !check_shape(bufs) {
            assert((self@, DueView::Nothing) == before.taken_up(
                regions,
                bufs@,
                header,
                data,
                state,
            ));
            return I2cDue::Nothing;
        }
        let h: I2cHeader = match read_bytes(mem, bufs[0].addr, 8) {
            Some(b) => {
                proof {
                    header = b@;
                }
                I2c::header(b.as_slice())
            },
            None => {
                assert((self@, DueView::Nothing) == before.taken_up(
                    regions,
                    bufs@,
                    header,
                    data,
                    state,
                ));
                return I2cDue::Nothing;
            },
        };
        let due: I2cDue = match self.begin(&h, bufs) {
            I2cStep::Settled(ok) => I2cDue::Answer(h, ok),
            I2cStep::Read(len) => {
                let now: BatteryState = provider();
                proof {
                    state = now;
                }
                match self.read(len, &now) {
                    Some(b) => I2cDue::Write(h, b),
                    None => I2cDue::Answer(h, false),
                }
            },
            I2cStep::Fetch(len) => match read_bytes(mem, bufs[1].addr, len as usize) {
                Some(b) => {
                    proof {
                        data = b@;
                    }
                    let ok: bool = self.fetched(Some(b.as_slice()));
                    I2cDue::Answer(h, ok)
                },
                None => I2cDue::Answer(h, false),
            },
        };
        assert(read_of(bufs@, header, data));
        assert((self@, due@) == before.taken_up(regions, bufs@, header, data, state));
        due
    }
}

/// A request that is none, or whose header cannot be read, is given back as it came. One that reads
/// gets the register that is selected, in as many bytes as its buffer has; one that writes hands the
/// battery what its buffer holds, all of it and once, and fails where the buffer cannot be read.
/// Only a write changes the battery.
pub proof fn law_requests_reach_the_battery(
    v: I2cView,
    regions: Seq<(u64, u64)>,
    bufs: Seq<I2cBuffer>,
    header: Seq<u8>,
    data: Seq<u8>,
    state: BatteryState,
)
    requires
        header.len() == 8,
    ensures
        ({
            let (after, due) = v.taken_up(regions, bufs, header, data, state);
            let h = device::header_of(header);
            let there = device::well_shaped(bufs) && guest_memory::spans(
                regions,
                bufs[0].addr as int,
                8,
            );
            let mine = !v.fail_next && (h.addr == 0x16 || h.addr == 0x17);
            let reads = h.flags & 2 != 0;
            let reg = battery::register(v.battery.command, v.battery.mode, state);
            &&& !there ==> after == v && due == DueView::Nothing
            &&& there && !mine ==> after == v && due == DueView::Answer(h, false)
            &&& there && mine && bufs.len() == 2 ==> after == v && due == DueView::Answer(h, true)
            &&& there && mine && bufs.len() == 3 && reads != bufs[1].writable ==> after == v && due
                == DueView::Answer(h, false)
            &&& there && mine && bufs.len() == 3 && reads && bufs[1].writable ==> {
                &&& after == v
                &&& reg is None ==> due == DueView::Answer(h, false)
                &&& reg is Some ==> (due matches DueView::Write(g, b) && g == h && b.len()
                    == bufs[1].len && forall|i: int|
                    0 <= i < b.len() ==> #[trigger] b[i] == (if i < reg.unwrap().len() {
                        reg.unwrap()[i]
                    } else {
                        0
                    }))
            }
            &&& there && mine && bufs.len() == 3 && !reads && !bufs[1].writable ==> {
                let got = guest_memory::spans(regions, bufs[1].addr as int, bufs[1].len as int);
                &&& due == DueView::Answer(h, got)
                &&& !got ==> after == v
                &&& got ==> after.battery == v.battery.written(data)
                &&& after.fail_next == v.fail_next
            }
        }),
{
    if device::well_shaped(bufs) {
        device::law_requests_are_carried_out(v, device::header_of(header), bufs);
    }
}

} // verus!
