//! The wake probe and its profile.
use devices::wake_probe::{
    calib_enabled, cmd_end, cmd_name, cmd_start, consume_kick, enabled, irq_acked_transport,
    irq_arm, irq_raised, kick, note_software_gic, take_coalesced, take_irqs, watch, WakeProbe,
    OUTLIER_NS, REPORT_NS,
};
use devices::wake_profile::{bin, calibrate, has_counts, Bucket, Hist, Profile};

#[test]
fn two_settings_turn_the_probe_on() {
    assert!(enabled(Some("1")));
    assert!(enabled(Some("calib")));
    assert!(!enabled(Some("0")));
    assert!(!enabled(Some("")));
    assert!(!enabled(None));
    assert!(calib_enabled(Some("calib")));
    assert!(!calib_enabled(Some("1")));
    assert!(!calib_enabled(None));
}

#[test]
fn the_oldest_doorbell_is_kept() {
    let mut p = WakeProbe::new();
    watch(&mut p, 5);
    kick(&mut p, 4, 10);
    assert_eq!(consume_kick(&mut p), None);
    kick(&mut p, 5, 100);
    kick(&mut p, 5, 200);
    kick(&mut p, 5, 300);
    assert_eq!(consume_kick(&mut p), Some(100));
    assert_eq!(consume_kick(&mut p), None);
    assert_eq!(take_coalesced(&mut p), 2);
    assert_eq!(take_coalesced(&mut p), 0);
}

#[test]
fn the_first_raise_is_timed() {
    let mut p = WakeProbe::new();
    watch(&mut p, 5);
    irq_arm(&mut p, 2, 1000);
    irq_arm(&mut p, 1, 1500);
    irq_acked_transport(&mut p, 4, 1600);
    irq_acked_transport(&mut p, 5, 1700);
    irq_acked_transport(&mut p, 5, 9999);
    let (running, parked) = take_irqs(&mut p, 2);
    assert_eq!((running.count, running.sum_ns, running.max_ns), (1, 700, 700));
    assert_eq!(parked.count, 0);
    assert_eq!(take_irqs(&mut p, 1).0.count, 0);
    // A parked processor is told apart.
    note_software_gic(&mut p);
    irq_raised(&mut p, 0, true);
    irq_arm(&mut p, 0, 10);
    irq_raised(&mut p, 0, true);
    irq_acked_transport(&mut p, 5, 30);
    let (running, parked) = take_irqs(&mut p, 0);
    assert_eq!((running.count, parked.count, parked.sum_ns), (0, 1, 20));
}

#[test]
fn commands_have_names_or_numbers() {
    assert_eq!(cmd_name(0x0104), "RESOURCE_FLUSH");
    assert_eq!(cmd_name(0x0209), "RESOURCE_UNMAP_BLOB");
    assert_eq!(cmd_name(0x0300), "0x0300");
    assert_eq!(cmd_name(0xa), "0x000a");
    assert_eq!(cmd_name(0xdead_beef), "0xdeadbeef");
    assert_eq!(cmd_name(0), "0x0000");
}

#[test]
fn bins_are_eighths_of_octaves() {
    assert_eq!(bin(0), 0);
    assert_eq!(bin(1), 0);
    assert_eq!(bin(2), 8);
    assert_eq!(bin(3), 12);
    assert_eq!(bin(4), 16);
    assert_eq!(bin(7), 22);
    assert_eq!(bin(8), 24);
    assert_eq!(bin(9), 25);
    assert_eq!(bin(15), 31);
    assert_eq!(bin(16), 32);
    assert_eq!(bin(1_000_000), 8 * 19 + 7);
    assert_eq!((bin(1116), bin(1117), bin(1126)), (80, 81, 81));
    assert_eq!((bin(0xeac0_c6e7), bin(0xeac0_c6e8)), (254, 255));
    assert_eq!(bin((1 << 32) - 1), 255);
    assert_eq!(bin(u64::MAX), 255);
}

#[test]
fn a_histogram_ranks_its_times() {
    let mut h = Hist::new();
    assert_eq!(h.rank(1), None);
    for ns in [10u64, 10, 100, 1000] {
        h.add(ns);
    }
    assert_eq!((h.count(), h.longest()), (4, 1000));
    assert_eq!(h.rank(1), Some(bin(10)));
    assert_eq!(h.rank(2), Some(bin(10)));
    assert_eq!(h.rank(3), Some(bin(100)));
    assert_eq!(h.rank(4), Some(bin(1000)));
    assert_eq!(h.rank(5), None);
    let mut b = Bucket::new();
    b.add(1, 2, 3);
    assert_eq!(b.count(), 1);
    assert_eq!(b.wake_drain().longest(), 2);
    assert_eq!(b.calib().count(), 0);
}

#[test]
fn the_control_does_the_same_work_each_time() {
    let mut x = 0x9e37_79b9_7f4a_7c15u64;
    for i in 0..20_000u64 {
        x = x.wrapping_mul(6364136223846793005).wrapping_add(i);
    }
    assert_eq!(calibrate(), x);
}

#[test]
fn wakes_are_sorted_by_the_gap_before_them() {
    assert!(Profile::new(false, 0).is_none());
    let mut probe = WakeProbe::new();
    let mut p = Profile::new(true, 0).unwrap();
    // Nothing is recorded unless a doorbell was sorted.
    assert_eq!(p.record(&mut probe, 1, 2, 3, 4, None), None);
    for (kick_ns, gap_ok) in [(500_000u64, 0usize), (2_000_000, 1), (10_000_000, 2), (90_000_000, 3)] {
        p.arm(kick_ns);
        p.arm_irq(&mut probe, kick_ns);
        let long = p.record(&mut probe, kick_ns, kick_ns + 5, kick_ns + 5 + OUTLIER_NS, kick_ns + 5 + OUTLIER_NS, None);
        assert_eq!(long.unwrap().bucket, gap_ok);
    }
    p.record_no_kick();
    assert!(p.maybe_report(&mut probe, REPORT_NS - 1).is_none());
    let r = p.maybe_report(&mut probe, REPORT_NS).unwrap();
    assert_eq!(r.lines.len(), 4);
    assert_eq!(r.lines[2].bucket.kick_wake().longest(), 5);
    assert_eq!((r.no_kick, r.coalesced, r.irq_coalesced), (1, 0, 3));
    assert!(has_counts(&r));
    // It starts over.
    let r = p.maybe_report(&mut probe, 2 * REPORT_NS).unwrap();
    assert!(r.lines.is_empty());
    assert!(!has_counts(&r));
}

#[test]
fn a_long_drain_names_its_slowest_command() {
    let mut probe = WakeProbe::new();
    let mut p = Profile::new(true, 0).unwrap();
    assert_eq!(cmd_start(false, 77), 0);
    let start = cmd_start(true, 77);
    cmd_end(&mut probe, start, 0x0104, 177);
    cmd_end(&mut probe, 0, 0x0105, 10_000);
    cmd_end(&mut probe, 100, 0x0105, 150);
    p.arm(10);
    let o = p
        .record(&mut probe, 10, 20, 20 + OUTLIER_NS, 30 + OUTLIER_NS, Some(4))
        .unwrap();
    assert_eq!((o.cmds, o.worst_type, o.worst_ns), (2, 0x0104, 100));
    assert_eq!((o.kick_wake_ns, o.drain_ns, o.signal_ns), (10, OUTLIER_NS, 10));
    assert_eq!(o.total_ns, OUTLIER_NS + 20);
    // The next drain starts clean, and a short one is not reported.
    p.arm(20);
    assert_eq!(p.record(&mut probe, 20, 20, 19 + OUTLIER_NS, 20 + OUTLIER_NS, None), None);
}
