//! The smart battery: a register file behind a command byte.
//!
//! The host only knows percentages, states and times. The battery shows a pack of a fixed size and
//! scales its charge registers from the percentage.
use crate::codec;
use crate::codec::put_u16;
use vstd::prelude::*;

verus! {

/// The pack's capacity in mAh.
pub const DESIGN_CAPACITY_MAH: u32 = 5000;

/// The pack's voltage in mV.
pub const DESIGN_VOLTAGE_MV: u16 = 11400;

/// Bits of the status register.
pub const BATTERY_INITIALIZED: u16 = 0x80;

pub const BATTERY_DISCHARGING: u16 = 0x40;

pub const BATTERY_FULL_CHARGED: u16 = 0x20;

pub const BATTERY_FULL_DISCHARGED: u16 = 0x10;

/// The current while charging, in mA.
pub const CHARGE_CURRENT: u16 = 1500;

/// The current while discharging: minus 1200 mA, in two's complement.
pub const DISCHARGE_CURRENT: u16 = 64336;

/// The host's battery as it is when the guest reads a register.
#[derive(Clone, Copy, PartialEq, Eq, Structural, Debug)]
pub struct BatteryState {
    /// 0 to 100.
    pub percent: u8,
    pub charging: bool,
    /// External power is connected, whether the battery charges or not.
    pub ac_online: bool,
    /// Minutes until empty while discharging, where that is known.
    pub time_to_empty_min: Option<u16>,
    /// Minutes until full while charging, where that is known.
    pub time_to_full_min: Option<u16>,
    pub cycle_count: Option<u16>,
}

impl Default for BatteryState {
    fn default() -> (r: Self)
        ensures
            r == (BatteryState {
                percent: 0,
                charging: false,
                ac_online: false,
                time_to_empty_min: None,
                time_to_full_min: None,
                cycle_count: None,
            }),
    {
        BatteryState {
            percent: 0,
            charging: false,
            ac_online: false,
            time_to_empty_min: None,
            time_to_full_min: None,
            cycle_count: None,
        }
    }
}

impl BatteryState {
    /// The percentage, no more than a hundred.
    pub open spec fn charge(self) -> u32 {
        if self.percent <= 100 {
            self.percent as u32
        } else {
            100
        }
    }

    /// What the guest is to take for full: on external power, not charging, and topped up. A charge
    /// that is held below that is not.
    pub open spec fn full(self) -> bool {
        self.ac_online && !self.charging && self.percent >= 95
    }

    /// The current, by its sign.
    pub open spec fn current(self) -> u16 {
        if self.charging {
            CHARGE_CURRENT
        } else if !self.ac_online {
            DISCHARGE_CURRENT
        } else {
            0
        }
    }

    /// The status register.
    pub open spec fn status(self) -> u16 {
        let f = if self.full() {
            BATTERY_FULL_CHARGED
        } else {
            0
        };
        let d = if !self.ac_online {
            BATTERY_DISCHARGING
        } else {
            0
        };
        let e = if !self.ac_online && self.percent <= 5 {
            BATTERY_FULL_DISCHARGED
        } else {
            0
        };
        BATTERY_INITIALIZED | f | d | e
    }

    /// The value of a register of sixteen bits; `None` for one that there is not, or whose value is
    /// not known. `mode` is what the guest last wrote into the mode register.
    pub open spec fn word(self, command: u8, mode: u16) -> Option<u16> {
        if command == 0x00 {
            Some(0)
        } else if command == 0x03 {
            Some(mode)
        } else if command == 0x08 {
            Some(2982)
        } else if command == 0x09 || command == 0x19 {
            Some(DESIGN_VOLTAGE_MV)
        } else if command == 0x0a || command == 0x0b {
            Some(self.current())
        } else if command == 0x0c || command == 0x1c {
            Some(1)
        } else if command == 0x0d {
            Some(self.charge() as u16)
        } else if command == 0x0f {
            Some((DESIGN_CAPACITY_MAH * self.charge() / 100) as u16)
        } else if command == 0x10 || command == 0x18 {
            Some(DESIGN_CAPACITY_MAH as u16)
        } else if command == 0x11 || command == 0x12 {
            if !self.ac_online {
                self.time_to_empty_min
            } else {
                None
            }
        } else if command == 0x13 {
            if self.charging {
                self.time_to_full_min
            } else {
                None
            }
        } else if command == 0x14 {
            Some(2000)
        } else if command == 0x15 {
            Some(12600)
        } else if command == 0x16 {
            Some(self.status())
        } else if command == 0x17 {
            match self.cycle_count {
                Some(n) => Some(n),
                None => Some(0),
            }
        } else if command == 0x1a {
            Some(0x0021)
        } else if command == 0x1b {
            Some(23778)
        } else {
            None
        }
    }
}

/// The text of a register that holds one: the maker, the device and the chemistry.
pub open spec fn text_register(command: u8) -> Option<Seq<u8>> {
    if command == 0x20 {
        Some(seq![76u8, 105, 109, 105, 110, 97])
    } else if command == 0x21 {
        Some(seq![72u8, 111, 115, 116, 32, 66, 97, 116, 116, 101, 114, 121])
    } else if command == 0x22 {
        Some(seq![76u8, 73, 79, 78])
    } else {
        None
    }
}

/// A register's bytes: a word, low byte first, or a text behind its length.
pub open spec fn register(command: u8, mode: u16, state: BatteryState) -> Option<Seq<u8>> {
    match text_register(command) {
        Some(t) => Some(seq![t.len() as u8] + t),
        None => match state.word(command, mode) {
            Some(w) => Some(codec::enc_u16(w)),
            None => None,
        },
    }
}

/// Bytes cut or filled up with zeros to a length.
pub open spec fn resized(s: Seq<u8>, len: nat) -> Seq<u8> {
    Seq::new(
        len,
        |i: int|
            if i < s.len() {
                s[i]
            } else {
                0u8
            },
    )
}

/// The battery: the register that is selected, and the mode that the guest wrote.
pub struct SbsBattery {
    command: u8,
    mode: u16,
}

pub struct BatteryView {
    pub command: u8,
    pub mode: u16,
}

impl View for SbsBattery {
    type V = BatteryView;

    closed spec fn view(&self) -> BatteryView {
        BatteryView { command: self.command, mode: self.mode }
    }
}

impl BatteryView {
    /// The battery after a guest write: the first byte selects a register, and a word behind it
    /// goes into the mode register where that is selected. A write of nothing is a probe.
    pub open spec fn written(self, bytes: Seq<u8>) -> Self {
        if bytes.len() == 0 {
            self
        } else {
            BatteryView {
                command: bytes[0],
                mode: if bytes.len() >= 3 && bytes[0] == 0x03 {
                    (bytes[1] + 256 * bytes[2]) as u16
                } else {
                    self.mode
                },
            }
        }
    }
}

fn word(v: u16) -> (r: Option<Vec<u8>>)
    ensures
        r is Some,
        r.unwrap()@ == codec::enc_u16(v),
{
    let mut out: Vec<u8> = Vec::new();
    put_u16(&mut out, v);
    assert(out@ =~= codec::enc_u16(v));
    Some(out)
}

fn known(v: Option<u16>) -> (r: Option<Vec<u8>>)
    ensures
        match v {
            Some(w) => r matches Some(b) && b@ == codec::enc_u16(w),
            None => r is None,
        },
{
    match v {
        Some(w) => word(w),
        None => None,
    }
}

impl SbsBattery {
    pub fn new() -> (r: Self)
        ensures
            r@ == (BatteryView { command: 0, mode: 0 }),
    {
        SbsBattery { command: 0, mode: 0 }
    }

    /// A guest write. It is always acknowledged.
    pub fn write(&mut self, bytes: &[u8]) -> (ack: bool)
        ensures
            ack,
            final(self)@ == old(self)@.written(bytes@),
    {
        if bytes.len() == 0 {
            return true;
        }
        self.command = bytes[0];
        if bytes.len() >= 3 && self.command == 0x03 {
            self.mode = bytes[1] as u16 + 256 * (bytes[2] as u16);
        }
        true
    }

    /// A guest read of `len` bytes of the selected register, with the host's battery as it is now.
    /// `None` when the register does not answer.
    pub fn read(&self, len: usize, state: &BatteryState) -> (r: Option<Vec<u8>>)
        ensures
            match r {
                Some(b) => register(self@.command, self@.mode, *state) matches Some(full) && b@
                    == resized(full, len as nat),
                None => register(self@.command, self@.mode, *state) is None,
            },
    {
        let full: Vec<u8> = self.register_bytes(state)?;
        let mut out: Vec<u8> = Vec::with_capacity(len);
        let mut i: usize = 0;
        while i < len
            invariant
                i <= len,
                out@ == resized(full@, i as nat),
            decreases len - i,
        {
            let b: u8 = if i < full.len() {
                full[i]
            } else {
                0
            };
            out.push(b);
            i = i + 1;
            assert(out@ =~= resized(full@, i as nat));
        }
        Some(out)
    }

    /// The selected register's bytes.
    pub fn register_bytes(&self, state: &BatteryState) -> (r: Option<Vec<u8>>)
        ensures
            match r {
                Some(b) => register(self@.command, self@.mode, *state) == Some(b@),
                None => register(self@.command, self@.mode, *state) is None,
            },
    {
        let percent: u32 = if state.percent <= 100 {
            state.percent as u32
        } else {
            100
        };
        let full: bool = state.ac_online && !state.charging && state.percent >= 95;
        let discharging: bool = !state.ac_online;
        match self.command {
            0x00 => word(0),
            0x03 => word(self.mode),
            0x08 => word(2982),
            0x09 | 0x19 => word(DESIGN_VOLTAGE_MV),
            0x0a | 0x0b => word(
                if state.charging {
                    CHARGE_CURRENT
                } else if discharging {
                    DISCHARGE_CURRENT
                } else {
                    0
                },
            ),
            0x0c | 0x1c => word(1),
            0x0d => word(percent as u16),
            0x0f => word((DESIGN_CAPACITY_MAH * percent / 100) as u16),
            0x10 | 0x18 => word(DESIGN_CAPACITY_MAH as u16),
            0x11 | 0x12 => if discharging {
                known(state.time_to_empty_min)
            } else {
                None
            },
            0x13 => if state.charging {
                known(state.time_to_full_min)
            } else {
                None
            },
            0x14 => word(2000),
            0x15 => word(12600),
            0x16 => {
                let f: u16 = if full {
                    BATTERY_FULL_CHARGED
                } else {
                    0
                };
                let d: u16 = if discharging {
                    BATTERY_DISCHARGING
                } else {
                    0
                };
                let e: u16 = if discharging && state.percent <= 5 {
                    BATTERY_FULL_DISCHARGED
                } else {
                    0
                };
                word(BATTERY_INITIALIZED | f | d | e)
            },
            0x17 => word(
                match state.cycle_count {
                    Some(n) => n,
                    None => 0,
                },
            ),
            0x1a => word(0x0021),
            0x1b => word(23778),
            0x20 => {
                let b: Vec<u8> = vec![6, 76, 105, 109, 105, 110, 97];
                assert(b@ =~= seq![6u8] + text_register(0x20).unwrap());
                Some(b)
            },
            0x21 => {
                let b: Vec<u8> = vec![12, 72, 111, 115, 116, 32, 66, 97, 116, 116, 101, 114, 121];
                assert(b@ =~= seq![12u8] + text_register(0x21).unwrap());
                Some(b)
            },
            0x22 => {
                let b: Vec<u8> = vec![4, 76, 73, 79, 78];
                assert(b@ =~= seq![4u8] + text_register(0x22).unwrap());
                Some(b)
            },
            _ => None,
        }
    }
}

/// What is left never exceeds the full charge, whatever the host reports.
pub proof fn law_remaining_within_capacity(state: BatteryState, mode: u16)
    ensures
        state.word(0x0f, mode).unwrap() <= state.word(0x10, mode).unwrap(),
        state.word(0x0d, mode).unwrap() <= 100,
{
}

/// The remaining capacity is the host's percentage of the full charge, which is 5000 mAh: nothing
/// at 0, all of it at 100, and the more the higher the percentage. The relative charge is the
/// percentage itself, and the full charge does not depend on it.
pub proof fn law_remaining_is_the_percentage(state: BatteryState, other: BatteryState, mode: u16)
    requires
        state.percent <= 100,
        other.percent <= 100,
    ensures
        100 * state.word(0x0f, mode).unwrap() == 5000 * state.percent,
        state.word(0x10, mode) == Some(5000u16),
        state.word(0x18, mode) == Some(5000u16),
        state.word(0x0d, mode) == Some(state.percent as u16),
        100 * state.word(0x0f, mode).unwrap() == state.word(0x10, mode).unwrap() * state.word(
            0x0d,
            mode,
        ).unwrap(),
        state.percent < other.percent ==> state.word(0x0f, mode).unwrap() < other.word(
            0x0f,
            mode,
        ).unwrap(),
{
}

/// A percentage that the host overstates is taken for a hundred, whatever the register.
pub proof fn law_charge_stops_at_a_hundred(state: BatteryState, command: u8, mode: u16)
    requires
        state.percent > 100,
    ensures
        register(command, mode, state) == register(
            command,
            mode,
            BatteryState { percent: 100, ..state },
        ),
{
}

/// The current has the direction of the charge: into the battery while it charges, out of it while
/// there is no external power, and none while it is held. Read as a signed number it is 1500 mA,
/// minus 1200 mA or zero. The average is the same.
pub proof fn law_current_has_a_direction(state: BatteryState, mode: u16)
    ensures
        state.charging ==> state.word(0x0a, mode) == Some(1500u16),
        !state.charging && !state.ac_online ==> state.word(0x0a, mode).unwrap() == 0x1_0000 - 1200,
        !state.charging && state.ac_online ==> state.word(0x0a, mode) == Some(0u16),
        state.word(0x0b, mode) == state.word(0x0a, mode),
{
}

/// Each bit of the status says one thing: the battery is set up, always; it discharges, without
/// external power; it is full, on external power, topped up and no longer charging; it is empty,
/// at five percent or less without external power. No other bit is set.
pub proof fn law_status_bits(state: BatteryState, mode: u16)
    ensures
        ({
            let s = state.word(0x16, mode).unwrap();
            &&& s & 0x80 == 0x80
            &&& (s & 0x40 == 0x40) == !state.ac_online
            &&& (s & 0x20 == 0x20) == (state.ac_online && !state.charging && state.percent >= 95)
            &&& (s & 0x10 == 0x10) == (!state.ac_online && state.percent <= 5)
            &&& s & 0xff0f == 0
        }),
{
    let f: u16 = if state.full() {
        0x20
    } else {
        0
    };
    let d: u16 = if !state.ac_online {
        0x40
    } else {
        0
    };
    let e: u16 = if !state.ac_online && state.percent <= 5 {
        0x10
    } else {
        0
    };
    let s = 0x80u16 | f | d | e;
    assert(state.status() == s);
    assert(s & 0x80 == 0x80 && (s & 0x40 == 0x40) == (d == 0x40) && (s & 0x20 == 0x20) == (f
        == 0x20) && (s & 0x10 == 0x10) == (e == 0x10) && s & 0xff0f == 0) by (bit_vector)
        requires
            s == 0x80u16 | f | d | e,
            f == 0x20 || f == 0,
            d == 0x40 || d == 0,
            e == 0x10 || e == 0,
    ;
}

/// A time that the host knows is shown as it is, in the direction in which the battery goes, and
/// the cycles that it knows are too.
pub proof fn law_known_numbers_are_shown(state: BatteryState, mode: u16)
    ensures
        !state.ac_online ==> state.word(0x11, mode) == state.time_to_empty_min && state.word(
            0x12,
            mode,
        ) == state.time_to_empty_min,
        state.charging ==> state.word(0x13, mode) == state.time_to_full_min,
        state.cycle_count is Some ==> state.word(0x17, mode) == state.cycle_count,
        state.cycle_count is None ==> state.word(0x17, mode) == Some(0u16),
{
}

/// What does not depend on the charge is the same however the host's battery is: the design, the
/// limits, the identity and the mode that the guest wrote. The pack is of 11.4 V, charges with
/// 2 A up to 12.6 V, and is at 25 degrees.
pub proof fn law_fixed_registers(a: BatteryState, b: BatteryState, command: u8, mode: u16)
    requires
        command <= 0x09 || command == 0x0c || command == 0x10 || command == 0x14 || command == 0x15
            || 0x18 <= command <= 0x22,
    ensures
        register(command, mode, a) == register(command, mode, b),
        a.word(0x09, mode) == Some(11400u16),
        a.word(0x19, mode) == Some(11400u16),
        a.word(0x14, mode) == Some(2000u16),
        a.word(0x15, mode) == Some(12600u16),
        a.word(0x08, mode) == Some(2982u16),
        a.word(0x03, mode) == Some(mode),
{
}

/// A register answers or not by its number alone, but for the times.
pub proof fn law_which_registers_answer(state: BatteryState, command: u8, mode: u16)
    ensures
        ({
            let answers = register(command, mode, state) is Some;
            &&& command == 0x00 || command == 0x03 || 0x08 <= command <= 0x0d || command == 0x0f
                || command == 0x10 || 0x14 <= command <= 0x1c || 0x20 <= command <= 0x22 ==> answers
            &&& command == 0x01 || command == 0x02 || 0x04 <= command <= 0x07 || command == 0x0e
                || 0x1d <= command <= 0x1f || command >= 0x23 ==> !answers
            &&& command == 0x11 || command == 0x12 ==> answers == (!state.ac_online
                && state.time_to_empty_min is Some)
            &&& command == 0x13 ==> answers == (state.charging && state.time_to_full_min is Some)
        }),
{
}

/// A word goes out low byte first, a text behind its length; a longer read is filled up with
/// zeros, a shorter one is cut.
pub proof fn law_register_bytes(state: BatteryState, command: u8, mode: u16, len: nat, i: int)
    requires
        register(command, mode, state) is Some,
        0 <= i < len,
    ensures
        ({
            let full = register(command, mode, state).unwrap();
            &&& 0x20 <= command <= 0x22 <==> text_register(command) is Some
            &&& !(0x20 <= command <= 0x22) ==> full.len() == 2 && full[0] + 256 * full[1]
                == state.word(command, mode).unwrap()
            &&& 0x20 <= command <= 0x22 ==> full[0] == full.len() - 1
            &&& resized(full, len).len() == len
            &&& resized(full, len)[i] == if i < full.len() {
                full[i]
            } else {
                0
            }
        }),
{
    if let Some(w) = state.word(command, mode) {
        reveal_with_fuel(codec::le_bytes, 3);
        assert(codec::enc_u16(w).len() == 2);
    }
}

/// A write selects the register that its first byte names, and changes the mode only where that is
/// the register and a word follows. A write of nothing changes nothing.
pub proof fn law_write_selects(v: BatteryView, bytes: Seq<u8>)
    ensures
        bytes.len() == 0 ==> v.written(bytes) == v,
        bytes.len() > 0 ==> v.written(bytes).command == bytes[0],
        bytes.len() > 0 && (bytes[0] != 3 || bytes.len() < 3) ==> v.written(bytes).mode == v.mode,
        bytes.len() >= 3 && bytes[0] == 3 ==> v.written(bytes).mode == bytes[1] + 256 * bytes[2],
{
}

/// The register that was selected last is the one that is read, however often it is.
pub proof fn law_selection_sticks(v: BatteryView, reg: u8, state: BatteryState)
    ensures
        register(v.written(seq![reg]).command, v.written(seq![reg]).mode, state) == register(
            reg,
            v.mode,
            state,
        ),
{
}

/// What is written into the mode register is read back from it.
pub proof fn law_mode_reads_back(v: BatteryView, lo: u8, hi: u8, state: BatteryState)
    ensures
        state.word(0x03, v.written(seq![0x03u8, lo, hi]).mode) == Some((lo + 256 * hi) as u16),
{
}

/// A time is shown only in the direction in which the battery goes.
pub proof fn law_times_follow_the_direction(state: BatteryState, mode: u16)
    ensures
        state.ac_online ==> state.word(0x11, mode) is None && state.word(0x12, mode) is None,
        !state.charging ==> state.word(0x13, mode) is None,
{
}

} // verus!
