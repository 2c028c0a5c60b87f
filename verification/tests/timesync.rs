//! When the guest's clock is set.
use devices::vsock::timesync::{
    sync_due, Look, TimesyncThread, SLEEP_NSECS, TSYNC_PORT, UPDATE_INTERVAL,
};

/// The clock can step back between two looks: no time went by then.
#[test]
fn backward_clock_step_does_not_underflow() {
    let now = 1_000_000_000u64;
    let last_awake = now + 5_000_000_000; // the clock was set back by about 5 s
    let last_update = now;
    assert!(!sync_due(now, last_awake, last_update));
}

#[test]
fn long_nap_triggers_sync() {
    let last_awake = 1_000_000_000_000u64;
    let now = last_awake + SLEEP_NSECS * 3;
    assert!(sync_due(now, last_awake, now));
}

#[test]
fn update_interval_triggers_sync() {
    let last_update = 1_000_000_000_000u64;
    let now = last_update + UPDATE_INTERVAL;
    assert!(sync_due(now, now, last_update));
}

#[test]
fn just_short_of_either_bound_nothing_is_due() {
    let then = 1_000_000_000_000u64;
    assert!(!sync_due(then + SLEEP_NSECS * 3 - 1, then, then));
    assert!(!sync_due(then + UPDATE_INTERVAL - 1, then + UPDATE_INTERVAL - 1, then));
}

#[test]
fn a_thread_sets_the_clock_at_once_and_then_at_intervals() {
    let start = 1_000_000_000_000u64;
    let mut t = TimesyncThread::new(3, start);
    // The clock was never set, so it is due.
    assert_eq!(t.work(false, start), Look::Send(start));
    t.sleeping(start);
    assert_eq!(t.work(false, start + SLEEP_NSECS), Look::Idle);
    t.sleeping(start + SLEEP_NSECS);
    // The host slept for a minute.
    let woke = start + SLEEP_NSECS + 30_000_000_000;
    assert_eq!(t.work(false, woke), Look::Send(woke));
    assert_eq!(t.work(true, woke + UPDATE_INTERVAL), Look::End);
    let h = t.header();
    assert_eq!((h.src_cid, h.dst_cid), (2, 3));
    assert_eq!((h.src_port, h.dst_port), (TSYNC_PORT, 123));
    assert_eq!((h.op, h.type_), (5, 3));
}
