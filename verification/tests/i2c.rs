//! The battery on the i2c bus.
use devices::guest_memory::check_ranges;
use devices::i2c::battery::{
    BatteryState, SbsBattery, BATTERY_DISCHARGING, BATTERY_FULL_CHARGED,
};
use devices::i2c::chain::I2cDue;
use devices::i2c::device::{
    check_shape, ActivateError, I2c, I2cBuffer, I2cError, I2cHeader, I2cStep, AVAIL_FEATURES,
    SBS_BATTERY_ADDR, VIRTIO_I2C_FLAGS_FAIL_NEXT, VIRTIO_I2C_FLAGS_M_RD, VIRTIO_I2C_MSG_ERR,
    VIRTIO_I2C_MSG_OK,
};
use vm_memory::{Bytes, GuestAddress, GuestMemoryMmap};

/// A battery and the host's state behind it.
struct Bat {
    battery: SbsBattery,
    state: BatteryState,
}

impl Bat {
    fn write(&mut self, bytes: &[u8]) -> bool {
        self.battery.write(bytes)
    }

    fn read(&mut self, len: usize) -> Option<Vec<u8>> {
        self.battery.read(len, &self.state)
    }
}

fn battery(state: BatteryState) -> Bat {
    Bat {
        battery: SbsBattery::new(),
        state,
    }
}

fn read_word(bat: &mut Bat, reg: u8) -> Option<u16> {
    assert!(bat.write(&[reg]));
    bat.read(2).map(|b| u16::from_le_bytes([b[0], b[1]]))
}

#[test]
fn status_word_tracks_the_host_state() {
    // Discharging at 42%.
    let mut bat = battery(BatteryState {
        percent: 42,
        charging: false,
        ac_online: false,
        ..Default::default()
    });
    let status = read_word(&mut bat, 0x16).unwrap();
    assert_ne!(status & BATTERY_DISCHARGING, 0);
    assert_eq!(status & BATTERY_FULL_CHARGED, 0);
    assert_eq!(read_word(&mut bat, 0x0d).unwrap(), 42);
    // The current is negative while discharging.
    assert!((read_word(&mut bat, 0x0a).unwrap() as i16) < 0);

    // Charging.
    let mut bat = battery(BatteryState {
        percent: 42,
        charging: true,
        ac_online: true,
        ..Default::default()
    });
    let status = read_word(&mut bat, 0x16).unwrap();
    assert_eq!(status & BATTERY_DISCHARGING, 0);
    assert!((read_word(&mut bat, 0x0a).unwrap() as i16) > 0);

    // Full: plugged in, not taking charge, topped up.
    let mut bat = battery(BatteryState {
        percent: 100,
        charging: false,
        ac_online: true,
        ..Default::default()
    });
    let status = read_word(&mut bat, 0x16).unwrap();
    assert_ne!(status & BATTERY_FULL_CHARGED, 0);
    assert_eq!(read_word(&mut bat, 0x0a).unwrap(), 0);
}

#[test]
fn time_estimates_nak_when_unknown_or_inapplicable() {
    let mut bat = battery(BatteryState {
        percent: 50,
        charging: false,
        ac_online: false,
        time_to_empty_min: Some(123),
        ..Default::default()
    });
    assert_eq!(read_word(&mut bat, 0x12).unwrap(), 123);
    // The time to full does not answer while discharging.
    assert!(bat.write(&[0x13]));
    assert!(bat.read(2).is_none());

    // An unknown estimate does not answer rather than with a made-up number.
    let mut bat = battery(BatteryState {
        percent: 50,
        charging: false,
        ac_online: false,
        time_to_empty_min: None,
        ..Default::default()
    });
    assert!(bat.write(&[0x12]));
    assert!(bat.read(2).is_none());
}

#[test]
fn string_registers_are_length_prefixed_blocks() {
    let mut bat = battery(BatteryState::default());
    assert!(bat.write(&[0x22]));
    // A driver reads the length first...
    assert_eq!(bat.read(1).unwrap(), vec![4]);
    // ...and then that many bytes and one.
    assert_eq!(bat.read(5).unwrap(), b"\x04LION".to_vec());
}

#[test]
fn spec_info_disables_pec_and_probe_register_works() {
    let mut bat = battery(BatteryState::default());
    // A battery is there if its status can be read.
    assert!(read_word(&mut bat, 0x16).is_some());
    // Version 1.1 without checksums.
    assert_eq!(read_word(&mut bat, 0x1a).unwrap(), 0x0021);
    // An unknown register does not answer.
    assert!(bat.write(&[0x7f]));
    assert!(bat.read(2).is_none());
    // A write of nothing is acknowledged.
    assert!(bat.write(&[]));
}

#[test]
fn the_mode_reads_back_and_the_selection_sticks() {
    let mut bat = battery(BatteryState::default());
    assert!(bat.write(&[0x03, 0x34, 0x12]));
    assert_eq!(bat.read(2).unwrap(), vec![0x34, 0x12]);
    assert_eq!(bat.read(2).unwrap(), vec![0x34, 0x12]);
    // A longer read is filled with zeros.
    assert_eq!(bat.read(4).unwrap(), vec![0x34, 0x12, 0, 0]);
}

fn header(addr: u16, flags: u32) -> I2cHeader {
    I2cHeader {
        addr: addr << 1,
        flags,
    }
}

fn buffers(middle: Option<(u32, bool)>) -> Vec<I2cBuffer> {
    let mut v = vec![I2cBuffer {
        addr: 0x1000,
        len: 8,
        writable: false,
    }];
    if let Some((len, writable)) = middle {
        v.push(I2cBuffer {
            addr: 0x1100,
            len,
            writable,
        });
    }
    v.push(I2cBuffer {
        addr: 0x1200,
        len: 1,
        writable: true,
    });
    v
}

#[test]
fn a_request_has_a_header_a_buffer_at_most_and_a_status() {
    assert!(check_shape(&buffers(None)));
    assert!(check_shape(&buffers(Some((2, true)))));
    assert!(!check_shape(&buffers(None)[..1]));
    assert!(!check_shape(&[]));
    let mut four = buffers(Some((2, true)));
    four.insert(1, four[1]);
    assert!(!check_shape(&four));
    let mut short = buffers(None);
    short[0].len = 7;
    assert!(!check_shape(&short));
    let mut readonly = buffers(None);
    readonly[1].writable = false;
    assert!(!check_shape(&readonly));
}

#[test]
fn a_header_is_an_address_and_flags() {
    assert_eq!(
        I2c::header(&[0x16, 0x01, 9, 9, 0x01, 0x02, 0x03, 0x04]),
        I2cHeader {
            addr: 0x0116,
            flags: 0x0403_0201
        }
    );
}

#[test]
fn a_read_and_a_write_reach_the_battery() {
    let mut dev = I2c::new();
    let w = header(SBS_BATTERY_ADDR, 0);
    assert_eq!(
        dev.begin(&w, &buffers(Some((1, false)))),
        I2cStep::Fetch(1)
    );
    assert!(dev.fetched(Some(&[0x1a])));
    assert_eq!(dev.answer(&w, true, 0).status, VIRTIO_I2C_MSG_OK);
    let r = header(SBS_BATTERY_ADDR, VIRTIO_I2C_FLAGS_M_RD);
    assert_eq!(
        dev.begin(&r, &buffers(Some((2, true)))),
        I2cStep::Read(2)
    );
    assert_eq!(
        dev.read(2, &BatteryState::default()),
        Some(vec![0x21, 0x00])
    );
    let a = dev.answer(&r, true, 2);
    assert_eq!((a.status, a.used), (VIRTIO_I2C_MSG_OK, 3));
    // A buffer of the wrong direction, and an address where nothing is.
    assert_eq!(
        dev.begin(&r, &buffers(Some((2, false)))),
        I2cStep::Settled(false)
    );
    assert_eq!(
        dev.begin(&w, &buffers(Some((2, true)))),
        I2cStep::Settled(false)
    );
    assert_eq!(
        dev.begin(&header(0x50, 0), &buffers(None)),
        I2cStep::Settled(false)
    );
    assert_eq!(dev.begin(&w, &buffers(None)), I2cStep::Settled(true));
    assert!(!dev.fetched(None));
}

#[test]
fn a_failure_is_passed_on_to_the_next_request() {
    let mut dev = I2c::new();
    let h = header(SBS_BATTERY_ADDR, VIRTIO_I2C_FLAGS_FAIL_NEXT);
    assert_eq!(dev.answer(&h, false, 0).status, VIRTIO_I2C_MSG_ERR);
    let next = header(SBS_BATTERY_ADDR, 0);
    assert_eq!(
        dev.begin(&next, &buffers(None)),
        I2cStep::Settled(false)
    );
    dev.answer(&next, false, 0);
    assert_eq!(
        dev.begin(&next, &buffers(None)),
        I2cStep::Settled(true)
    );
}

#[test]
fn the_adapter_is_activated_with_one_queue() {
    let mut dev = I2c::new();
    assert_eq!(dev.id(), "virtio_i2c");
    assert_eq!(dev.avail_features(), (1 << 32) | 1);
    assert_eq!(dev.avail_features(), AVAIL_FEATURES);
    dev.set_acked_features(1);
    assert_eq!(dev.acked_features(), 1);
    assert_eq!(dev.activate(2, true), Err(ActivateError::BadActivate));
    assert_eq!(dev.activate(1, false), Err(ActivateError::BadActivate));
    assert_eq!(dev.activate(1, true), Ok(()));
    assert!(dev.is_activated());
    assert!(dev.reset());
    assert!(!dev.is_activated());
    assert_ne!(I2cError::EventFd(1), I2cError::EventFd(2));
}

fn guest() -> GuestMemoryMmap {
    GuestMemoryMmap::from_ranges(&[(GuestAddress(0x1000), 0x1000), (GuestAddress(0x2000), 0x1000)])
        .unwrap()
}

fn put_header(mem: &GuestMemoryMmap, h: &I2cHeader) {
    let mut b = [0u8; 8];
    b[..2].copy_from_slice(&h.addr.to_le_bytes());
    b[4..].copy_from_slice(&h.flags.to_le_bytes());
    mem.write_slice(&b, GuestAddress(0x1000)).unwrap();
}

#[test]
fn a_request_is_read_out_of_guest_memory() {
    let mem = guest();
    let mut dev = I2c::new();
    let state = BatteryState {
        percent: 77,
        ..Default::default()
    };
    let provider = || state;
    // The guest selects the charge register.
    let w = header(SBS_BATTERY_ADDR, 0);
    put_header(&mem, &w);
    mem.write_slice(&[0x0d], GuestAddress(0x1100)).unwrap();
    match dev.process_chain(&mem, &buffers(Some((1, false))), &provider) {
        I2cDue::Answer(h, ok) => assert_eq!((h, ok), (w, true)),
        _ => panic!("a write is answered"),
    }
    // It reads it.
    let r = header(SBS_BATTERY_ADDR, VIRTIO_I2C_FLAGS_M_RD);
    put_header(&mem, &r);
    match dev.process_chain(&mem, &buffers(Some((2, true))), &provider) {
        I2cDue::Write(h, bytes) => assert_eq!((h, bytes), (r, vec![77, 0])),
        _ => panic!("a read has bytes to write"),
    }
    // Another address does not answer.
    put_header(&mem, &header(0x50, 0));
    assert!(matches!(
        dev.process_chain(&mem, &buffers(None), &provider),
        I2cDue::Answer(_, false)
    ));
}

#[test]
fn a_request_outside_guest_memory_goes_back() {
    let mem = guest();
    let mut dev = I2c::new();
    let provider = BatteryState::default;
    let mut bufs = buffers(Some((4, false)));
    put_header(&mem, &header(SBS_BATTERY_ADDR, 0));
    // A buffer may lie across two regions, but not beyond the last.
    bufs[1].addr = 0x1ffe;
    assert!(matches!(
        dev.process_chain(&mem, &bufs, &provider),
        I2cDue::Answer(_, true)
    ));
    bufs[1].addr = 0x2ffe;
    assert!(matches!(
        dev.process_chain(&mem, &bufs, &provider),
        I2cDue::Answer(_, false)
    ));
    bufs[0].addr = 0x2ffc;
    assert!(matches!(
        dev.process_chain(&mem, &bufs, &provider),
        I2cDue::Nothing
    ));
    bufs[0].len = 4;
    assert!(matches!(
        dev.process_chain(&mem, &bufs, &provider),
        I2cDue::Nothing
    ));
}

#[test]
fn a_range_lies_in_one_region() {
    let mem = guest();
    assert!(check_ranges(&mem, &vec![]));
    assert!(check_ranges(&mem, &vec![(0x1000, 0x1000), (0x2ff0, 0x10)]));
    assert!(check_ranges(&mem, &vec![(0x1fff, 0)]));
    assert!(!check_ranges(&mem, &vec![(0x1ffe, 4)]));
    assert!(!check_ranges(&mem, &vec![(0x1000, 1), (0x3000, 0)]));
    assert!(!check_ranges(&mem, &vec![(0xfff, 1)]));
    assert!(!check_ranges(&mem, &vec![(u64::MAX, 2)]));
}
