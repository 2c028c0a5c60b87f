//! How long the device's worker takes to wake for a doorbell, and the guest for an interrupt.
//!
//! A virtual processor stamps the doorbell, the worker takes the stamp when it wakes. Samples are
//! sorted by how long the path was idle before, because that is what their cost depends on. Times
//! are nanoseconds of a clock that does not step back.
use crate::text;
use vstd::prelude::*;
use vstd::string::*;

verus! {

/// How many idle gaps are told apart.
pub const BUCKETS: usize = 4;

/// How many bins a histogram has.
pub const BINS: usize = 256;

/// How long a report covers.
pub const REPORT_NS: u64 = 5_000_000_000;

/// A drain that takes longer is reported by itself: less than a frame at 60 Hz, and far more than
/// is usual.
pub const OUTLIER_NS: u64 = 5_000_000;

/// Whether the setting with this value turns the probe on.
pub fn enabled(setting: Option<&str>) -> (r: bool)
    ensures
        r == match setting {
            Some(s) => s@ == "1"@ || s@ == "calib"@,
            None => false,
        },
{
    match setting {
        Some(s) => same(s, "1") || same(s, "calib"),
        None => false,
    }
}

/// Whether the setting with this value turns the control measurement on too.
pub fn calib_enabled(setting: Option<&str>) -> (r: bool)
    ensures
        r == match setting {
            Some(s) => s@ == "calib"@,
            None => false,
        },
{
    match setting {
        Some(s) => same(s, "calib"),
        None => false,
    }
}

fn same(a: &str, b: &str) -> (r: bool)
    ensures
        r == (a@ == b@),
{
    let n: usize = a.unicode_len();
    if n != b.unicode_len() {
        return false;
    }
    let mut i: usize = 0;
    while i < n
        invariant
            i <= n == a@.len() == b@.len(),
            a@.take(i as int) == b@.take(i as int),
        decreases n - i,
    {
        if a.get_char(i) != b.get_char(i) {
            assert(a@[i as int] != b@[i as int]);
            return false;
        }
        i = i + 1;
        assert(a@.take(i as int) =~= a@.take(i - 1).push(a@[i - 1]));
        assert(b@.take(i as int) =~= b@.take(i - 1).push(b@[i - 1]));
    }
    assert(a@.take(n as int) =~= a@);
    assert(b@.take(n as int) =~= b@);
    true
}

/// The time from `then` to `now`; none where `now` is earlier.
pub open spec fn since(now: u64, then: u64) -> u64 {
    if now < then {
        0
    } else {
        (now - then) as u64
    }
}

/// Interrupts that the guest answered.
#[derive(Clone, Copy, PartialEq, Eq, Structural, Debug)]
pub struct IrqStat {
    pub count: u64,
    pub sum_ns: u64,
    pub max_ns: u64,
}

/// No interrupt was answered yet.
pub open spec fn no_irqs() -> IrqStat {
    IrqStat { count: 0, sum_ns: 0, max_ns: 0 }
}

impl IrqStat {
    /// After one that took `ns`.
    pub open spec fn with(self, ns: u64) -> Self {
        IrqStat {
            count: self.count.wrapping_add(1),
            sum_ns: self.sum_ns.wrapping_add(ns),
            max_ns: if self.max_ns < ns {
                ns
            } else {
                self.max_ns
            },
        }
    }
}

/// What the sides of a wake share.
pub struct WakeProbe {
    watched_fd: i32,
    kick_ns: u64,
    coalesced: u64,
    irq_armed: bool,
    irq_bucket: Option<usize>,
    irq_raise_ns: u64,
    irq_parked: bool,
    irq_running_stats: Vec<IrqStat>,
    irq_parked_stats: Vec<IrqStat>,
    irq_coalesced: u64,
    software_gic: bool,
    cmd_worst_ns: u64,
    cmd_worst_type: u32,
    cmd_count: u64,
}

#[verifier::ext_equal]
pub struct ProbeView {
    /// The descriptor whose doorbell is watched.
    pub watched_fd: i32,
    /// When the oldest doorbell rang that the worker did not take; 0 for none.
    pub kick_ns: u64,
    /// Doorbells that rang while an older one waited.
    pub coalesced: u64,
    /// An interrupt was raised and not answered.
    pub irq_armed: bool,
    pub irq_bucket: Option<usize>,
    pub irq_raise_ns: u64,
    /// The virtual processor was parked when it was raised.
    pub irq_parked: bool,
    pub irq_running_stats: Seq<IrqStat>,
    pub irq_parked_stats: Seq<IrqStat>,
    pub irq_coalesced: u64,
    /// The interrupt controller is in software, so whether a processor was parked is known.
    pub software_gic: bool,
    pub cmd_worst_ns: u64,
    pub cmd_worst_type: u32,
    pub cmd_count: u64,
}

impl View for WakeProbe {
    type V = ProbeView;

    closed spec fn view(&self) -> ProbeView {
        ProbeView {
            watched_fd: self.watched_fd,
            kick_ns: self.kick_ns,
            coalesced: self.coalesced,
            irq_armed: self.irq_armed,
            irq_bucket: self.irq_bucket,
            irq_raise_ns: self.irq_raise_ns,
            irq_parked: self.irq_parked,
            irq_running_stats: self.irq_running_stats@,
            irq_parked_stats: self.irq_parked_stats@,
            irq_coalesced: self.irq_coalesced,
            software_gic: self.software_gic,
            cmd_worst_ns: self.cmd_worst_ns,
            cmd_worst_type: self.cmd_worst_type,
            cmd_count: self.cmd_count,
        }
    }
}

impl ProbeView {
    pub open spec fn wf(self) -> bool {
        &&& self.irq_running_stats.len() == BUCKETS
        &&& self.irq_parked_stats.len() == BUCKETS
        &&& self.irq_bucket matches Some(b) ==> b < BUCKETS
    }

    /// After a doorbell on `fd`. The oldest one that was not taken stays.
    pub open spec fn kicked(self, fd: i32, now: u64) -> Self {
        if fd != self.watched_fd {
            self
        } else if self.kick_ns == 0 {
            ProbeView { kick_ns: now, ..self }
        } else {
            ProbeView { coalesced: self.coalesced.wrapping_add(1), ..self }
        }
    }

    /// After an interrupt is raised for a doorbell in this bucket. Only one that found the line
    /// idle is timed; the others ride on it.
    pub open spec fn armed(self, bucket: usize, now: u64) -> Self {
        if self.irq_armed {
            ProbeView { irq_coalesced: self.irq_coalesced.wrapping_add(1), ..self }
        } else {
            ProbeView {
                irq_armed: true,
                irq_bucket: Some(bucket),
                irq_parked: false,
                irq_raise_ns: now,
                ..self
            }
        }
    }

    /// After the guest answered an interrupt of the device on `fd`.
    pub open spec fn acked(self, fd: i32, now: u64) -> Self {
        if fd != self.watched_fd || !self.irq_armed {
            self
        } else {
            match self.irq_bucket {
                None => ProbeView { irq_armed: false, ..self },
                Some(b) => {
                    let dt = since(now, self.irq_raise_ns);
                    if self.irq_parked {
                        ProbeView {
                            irq_armed: false,
                            irq_parked_stats: self.irq_parked_stats.update(
                                b as int,
                                self.irq_parked_stats[b as int].with(dt),
                            ),
                            ..self
                        }
                    } else {
                        ProbeView {
                            irq_armed: false,
                            irq_running_stats: self.irq_running_stats.update(
                                b as int,
                                self.irq_running_stats[b as int].with(dt),
                            ),
                            ..self
                        }
                    }
                },
            }
        }
    }

    /// After a command that began at `start` (0: not timed) ended. The slowest one is kept.
    pub open spec fn command_ended(self, start: u64, cmd_type: u32, now: u64) -> Self {
        if start == 0 {
            self
        } else {
            let dt = since(now, start);
            ProbeView {
                cmd_count: self.cmd_count.wrapping_add(1),
                cmd_worst_ns: if dt > self.cmd_worst_ns {
                    dt
                } else {
                    self.cmd_worst_ns
                },
                cmd_worst_type: if dt > self.cmd_worst_ns {
                    cmd_type
                } else {
                    self.cmd_worst_type
                },
                ..self
            }
        }
    }
}

fn four_stats() -> (r: Vec<IrqStat>)
    ensures
        r@ == seq![no_irqs(), no_irqs(), no_irqs(), no_irqs()],
{
    let none = IrqStat { count: 0, sum_ns: 0, max_ns: 0 };
    let mut r: Vec<IrqStat> = Vec::new();
    r.push(none);
    r.push(none);
    r.push(none);
    r.push(none);
    assert(r@ =~= seq![no_irqs(), no_irqs(), no_irqs(), no_irqs()]);
    r
}

impl WakeProbe {
    pub open spec fn inv(self) -> bool {
        self@.wf()
    }

    /// A probe that watches nothing.
    pub fn new() -> (r: Self)
        ensures
            r.inv(),
            r@ == (ProbeView {
                watched_fd: -1i32,
                kick_ns: 0,
                coalesced: 0,
                irq_armed: false,
                irq_bucket: None,
                irq_raise_ns: 0,
                irq_parked: false,
                irq_running_stats: seq![no_irqs(), no_irqs(), no_irqs(), no_irqs()],
                irq_parked_stats: seq![no_irqs(), no_irqs(), no_irqs(), no_irqs()],
                irq_coalesced: 0,
                software_gic: false,
                cmd_worst_ns: 0,
                cmd_worst_type: 0,
                cmd_count: 0,
            }),
    {
        WakeProbe {
            watched_fd: -1,
            kick_ns: 0,
            coalesced: 0,
            irq_armed: false,
            irq_bucket: None,
            irq_raise_ns: 0,
            irq_parked: false,
            irq_running_stats: four_stats(),
            irq_parked_stats: four_stats(),
            irq_coalesced: 0,
            software_gic: false,
            cmd_worst_ns: 0,
            cmd_worst_type: 0,
            cmd_count: 0,
        }
    }
}

/// Watches the doorbell of this descriptor.
pub fn watch(probe: &mut WakeProbe, fd: i32)
    requires
        old(probe).inv(),
    ensures
        final(probe).inv(),
        final(probe)@ == (ProbeView { watched_fd: fd, ..old(probe)@ }),
{
    probe.watched_fd = fd;
}

/// A doorbell rings.
pub fn kick(probe: &mut WakeProbe, fd: i32, now: u64)
    requires
        old(probe).inv(),
    ensures
        final(probe).inv(),
        final(probe)@ == old(probe)@.kicked(fd, now),
{
    if fd != probe.watched_fd {
        return;
    }
    if probe.kick_ns == 0 {
        probe.kick_ns = now;
    } else {
        probe.coalesced = probe.coalesced.wrapping_add(1);
    }
}

/// The worker woke: gives the doorbell's stamp, and forgets it. None: no doorbell is behind this
/// wake that was not taken before.
pub fn consume_kick(probe: &mut WakeProbe) -> (r: Option<u64>)
    requires
        old(probe).inv(),
    ensures
        final(probe).inv(),
        final(probe)@ == (ProbeView { kick_ns: 0, ..old(probe)@ }),
        r == if old(probe)@.kick_ns == 0 {
            None
        } else {
            Some(old(probe)@.kick_ns)
        },
{
    let ns: u64 = probe.kick_ns;
    probe.kick_ns = 0;
    if ns == 0 {
        None
    } else {
        Some(ns)
    }
}

/// How many doorbells rode on an older one, since the last time this was asked.
pub fn take_coalesced(probe: &mut WakeProbe) -> (r: u64)
    requires
        old(probe).inv(),
    ensures
        final(probe).inv(),
        final(probe)@ == (ProbeView { coalesced: 0, ..old(probe)@ }),
        r == old(probe)@.coalesced,
{
    let r: u64 = probe.coalesced;
    probe.coalesced = 0;
    r
}

/// The interrupt controller is in software.
pub fn note_software_gic(probe: &mut WakeProbe)
    requires
        old(probe).inv(),
    ensures
        final(probe).inv(),
        final(probe)@ == (ProbeView { software_gic: true, ..old(probe)@ }),
{
    probe.software_gic = true;
}

/// An interrupt is about to be raised, for a doorbell in this bucket.
pub fn irq_arm(probe: &mut WakeProbe, bucket: usize, now: u64)
    requires
        old(probe).inv(),
        bucket < BUCKETS,
    ensures
        final(probe).inv(),
        final(probe)@ == old(probe)@.armed(bucket, now),
{
    if probe.irq_armed {
        probe.irq_coalesced = probe.irq_coalesced.wrapping_add(1);
        return;
    }
    probe.irq_armed = true;
    probe.irq_bucket = Some(bucket);
    probe.irq_parked = false;
    probe.irq_raise_ns = now;
}

/// The interrupt was raised, on a virtual processor that was parked or not.
pub fn irq_raised(probe: &mut WakeProbe, _irq: u32, parked: bool)
    requires
        old(probe).inv(),
    ensures
        final(probe).inv(),
        final(probe)@ == (ProbeView {
            irq_parked: old(probe)@.irq_parked || (parked && old(probe)@.irq_armed),
            ..old(probe)@
        }),
{
    if parked && probe.irq_armed {
        probe.irq_parked = true;
    }
}

/// The guest answered an interrupt of the device on this descriptor.
pub fn irq_acked_transport(probe: &mut WakeProbe, fd: i32, now: u64)
    requires
        old(probe).inv(),
    ensures
        final(probe).inv(),
        final(probe)@ == old(probe)@.acked(fd, now),
{
    if fd != probe.watched_fd {
        return;
    }
    if !probe.irq_armed {
        return;
    }
    probe.irq_armed = false;
    let bucket: usize = match probe.irq_bucket {
        Some(b) => b,
        None => {
            return;
        },
    };
    let dt: u64 = now.saturating_sub(probe.irq_raise_ns);
    let slot: IrqStat = if probe.irq_parked {
        probe.irq_parked_stats[bucket]
    } else {
        probe.irq_running_stats[bucket]
    };
    let slot = IrqStat {
        count: slot.count.wrapping_add(1),
        sum_ns: slot.sum_ns.wrapping_add(dt),
        max_ns: if slot.max_ns < dt {
            dt
        } else {
            slot.max_ns
        },
    };
    if probe.irq_parked {
        probe.irq_parked_stats.set(bucket, slot);
    } else {
        probe.irq_running_stats.set(bucket, slot);
    }
}

/// When a command begins; 0 while the probe is off.
pub fn cmd_start(on: bool, now: u64) -> (r: u64)
    ensures
        r == if on {
            now
        } else {
            0
        },
{
    if on {
        now
    } else {
        0
    }
}

/// A command ended.
pub fn cmd_end(probe: &mut WakeProbe, start_ns: u64, cmd_type: u32, now: u64)
    requires
        old(probe).inv(),
    ensures
        final(probe).inv(),
        final(probe)@ == old(probe)@.command_ended(start_ns, cmd_type, now),
{
    if start_ns == 0 {
        return;
    }
    let dt: u64 = now.saturating_sub(start_ns);
    probe.cmd_count = probe.cmd_count.wrapping_add(1);
    if dt > probe.cmd_worst_ns {
        probe.cmd_worst_ns = dt;
        probe.cmd_worst_type = cmd_type;
    }
}

/// The commands of a drain: how many, the slowest one and its time. The next drain starts over.
pub fn take_commands(probe: &mut WakeProbe) -> (r: (u64, u32, u64))
    requires
        old(probe).inv(),
    ensures
        final(probe).inv(),
        final(probe)@ == (ProbeView {
            cmd_count: 0,
            cmd_worst_ns: 0,
            cmd_worst_type: 0,
            ..old(probe)@
        }),
        r == (old(probe)@.cmd_count, old(probe)@.cmd_worst_type, old(probe)@.cmd_worst_ns),
{
    let r = (probe.cmd_count, probe.cmd_worst_type, probe.cmd_worst_ns);
    probe.cmd_count = 0;
    probe.cmd_worst_ns = 0;
    probe.cmd_worst_type = 0;
    r
}

/// The interrupts answered behind doorbells in this bucket, by a processor that ran and by one that
/// was parked. The counts start over.
pub fn take_irqs(probe: &mut WakeProbe, bucket: usize) -> (r: (IrqStat, IrqStat))
    requires
        old(probe).inv(),
        bucket < BUCKETS,
    ensures
        final(probe).inv(),
        final(probe)@ == (ProbeView {
            irq_running_stats: old(probe)@.irq_running_stats.update(bucket as int, no_irqs()),
            irq_parked_stats: old(probe)@.irq_parked_stats.update(bucket as int, no_irqs()),
            ..old(probe)@
        }),
        r == (
            old(probe)@.irq_running_stats[bucket as int],
            old(probe)@.irq_parked_stats[bucket as int],
        ),
{
    let none = IrqStat { count: 0, sum_ns: 0, max_ns: 0 };
    let r = (probe.irq_running_stats[bucket], probe.irq_parked_stats[bucket]);
    probe.irq_running_stats.set(bucket, none);
    probe.irq_parked_stats.set(bucket, none);
    r
}

/// How many interrupts rode on an older one, since the last time this was asked.
pub fn take_irq_coalesced(probe: &mut WakeProbe) -> (r: u64)
    requires
        old(probe).inv(),
    ensures
        final(probe).inv(),
        final(probe)@ == (ProbeView { irq_coalesced: 0, ..old(probe)@ }),
        r == old(probe)@.irq_coalesced,
{
    let r: u64 = probe.irq_coalesced;
    probe.irq_coalesced = 0;
    r
}

/// Whether the interrupt controller is in software.
pub fn has_software_gic(probe: &WakeProbe) -> (r: bool)
    ensures
        r == probe@.software_gic,
{
    probe.software_gic
}

/// The name of a virtio-gpu command; an unknown one by its number.
pub open spec fn name_of(t: u32) -> Seq<char> {
    match t {
        0x0100 => "GET_DISPLAY_INFO"@,
        0x0101 => "RESOURCE_CREATE_2D"@,
        0x0102 => "RESOURCE_UNREF"@,
        0x0103 => "SET_SCANOUT"@,
        0x0104 => "RESOURCE_FLUSH"@,
        0x0105 => "TRANSFER_TO_HOST_2D"@,
        0x0106 => "RESOURCE_ATTACH_BACKING"@,
        0x0107 => "RESOURCE_DETACH_BACKING"@,
        0x0108 => "GET_CAPSET_INFO"@,
        0x0109 => "GET_CAPSET"@,
        0x010a => "GET_EDID"@,
        0x010b => "RESOURCE_ASSIGN_UUID"@,
        0x010c => "RESOURCE_CREATE_BLOB"@,
        0x010d => "SET_SCANOUT_BLOB"@,
        0x0200 => "CTX_CREATE"@,
        0x0201 => "CTX_DESTROY"@,
        0x0202 => "CTX_ATTACH_RESOURCE"@,
        0x0203 => "CTX_DETACH_RESOURCE"@,
        0x0204 => "RESOURCE_CREATE_3D"@,
        0x0205 => "TRANSFER_TO_HOST_3D"@,
        0x0206 => "TRANSFER_FROM_HOST_3D"@,
        0x0207 => "SUBMIT_3D"@,
        0x0208 => "RESOURCE_MAP_BLOB"@,
        0x0209 => "RESOURCE_UNMAP_BLOB"@,
        _ => "0x"@ + text::hex(t as nat, 4),
    }
}

/// The name of a virtio-gpu command.
pub fn cmd_name(t: u32) -> (r: String)
    ensures
        r@ == name_of(t),
{
    match t {
        0x0100 => String::from_str("GET_DISPLAY_INFO"),
        0x0101 => String::from_str("RESOURCE_CREATE_2D"),
        0x0102 => String::from_str("RESOURCE_UNREF"),
        0x0103 => String::from_str("SET_SCANOUT"),
        0x0104 => String::from_str("RESOURCE_FLUSH"),
        0x0105 => String::from_str("TRANSFER_TO_HOST_2D"),
        0x0106 => String::from_str("RESOURCE_ATTACH_BACKING"),
        0x0107 => String::from_str("RESOURCE_DETACH_BACKING"),
        0x0108 => String::from_str("GET_CAPSET_INFO"),
        0x0109 => String::from_str("GET_CAPSET"),
        0x010a => String::from_str("GET_EDID"),
        0x010b => String::from_str("RESOURCE_ASSIGN_UUID"),
        0x010c => String::from_str("RESOURCE_CREATE_BLOB"),
        0x010d => String::from_str("SET_SCANOUT_BLOB"),
        0x0200 => String::from_str("CTX_CREATE"),
        0x0201 => String::from_str("CTX_DESTROY"),
        0x0202 => String::from_str("CTX_ATTACH_RESOURCE"),
        0x0203 => String::from_str("CTX_DETACH_RESOURCE"),
        0x0204 => String::from_str("RESOURCE_CREATE_3D"),
        0x0205 => String::from_str("TRANSFER_TO_HOST_3D"),
        0x0206 => String::from_str("TRANSFER_FROM_HOST_3D"),
        0x0207 => String::from_str("SUBMIT_3D"),
        0x0208 => String::from_str("RESOURCE_MAP_BLOB"),
        0x0209 => String::from_str("RESOURCE_UNMAP_BLOB"),
        _ => {
            let mut r = String::from_str("0x");
            text::put_hex(&mut r, t, 4);
            r
        },
    }
}

} // verus!
