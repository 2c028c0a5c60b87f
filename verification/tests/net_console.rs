//! The network device and the console's ports.
use devices::config::read_config;
use devices::console::port::{Port, PortDescription};
use devices::net::device::{
    ActivateError, DeviceError, FrontendError, Net, NetStart, QueueError, ReadError, RxError,
    TxError, VirtioNetBackend, WriteError, NUM_QUEUES,
};
use virtio_bindings::virtio_config::VIRTIO_F_VERSION_1;
use virtio_bindings::virtio_net::VIRTIO_NET_F_MAC;
use virtio_bindings::virtio_ring::VIRTIO_RING_F_EVENT_IDX;

fn net() -> Net {
    Net::new(
        "eth0".to_string(),
        VirtioNetBackend::UnixgramPath(b"/run/gw".to_vec(), true),
        [0x5a, 0x94, 0xef, 0xe4, 0x0c, 0xee],
        0x8001,
    )
}

#[test]
fn a_network_device_has_an_address() {
    let dev = net();
    assert_eq!(dev.id(), "eth0");
    assert_eq!(
        *dev.backend(),
        VirtioNetBackend::UnixgramPath(b"/run/gw".to_vec(), true)
    );
    assert_eq!(
        dev.avail_features(),
        0x8001
            | (1 << VIRTIO_NET_F_MAC)
            | (1 << VIRTIO_RING_F_EVENT_IDX)
            | (1 << VIRTIO_F_VERSION_1)
    );
    let mut data = [9u8; 12];
    dev.read_config(0, &mut data);
    assert_eq!(
        data,
        [0x5a, 0x94, 0xef, 0xe4, 0x0c, 0xee, 0, 0, 0, 0, 9, 9]
    );
    let mut tail = [9u8; 4];
    dev.read_config(4, &mut tail[..2]);
    assert_eq!(tail, [0x0c, 0xee, 9, 9]);
    dev.read_config(10, &mut tail);
    assert_eq!(tail, [0x0c, 0xee, 9, 9]);
}

#[test]
fn a_connection_outlives_a_reset() {
    let mut dev = net();
    assert_eq!(dev.activate(1, true), Err(ActivateError::BadActivate));
    assert_eq!(dev.activate(NUM_QUEUES, false), Err(ActivateError::BadActivate));
    // The first activation connects.
    assert_eq!(dev.activate(NUM_QUEUES, true), Ok(NetStart::Connect));
    assert!(!dev.is_activated());
    assert_eq!(dev.connected(false), Err(ActivateError::BadActivate));
    assert_eq!(dev.activate(NUM_QUEUES, true), Ok(NetStart::Connect));
    assert_eq!(dev.connected(true), Ok(()));
    assert!(dev.is_activated() && dev.has_worker());
    // The worker gives the connection back, and the next activation goes on with it.
    assert!(dev.reset(true));
    assert!(!dev.is_activated() && !dev.has_worker());
    assert_eq!(dev.activate(NUM_QUEUES, true), Ok(NetStart::Reuse));
    assert!(dev.is_activated());
    // One that panicked does not.
    assert!(dev.reset(false));
    assert_eq!(dev.activate(NUM_QUEUES, true), Ok(NetStart::Connect));
    dev.set_acked_features(7);
    assert_eq!(dev.acked_features(), 7);
}

#[test]
fn errors_say_where_they_come_from() {
    assert_ne!(
        RxError::Backend(ReadError::NothingRead),
        RxError::DeviceError(DeviceError::NoAvailBuffers)
    );
    assert_ne!(
        TxError::Backend(WriteError::PartialWrite),
        TxError::QueueError(QueueError::DescIndexOutOfBounds(1))
    );
    assert_eq!(
        FrontendError::QueueError(QueueError::UsedRing),
        FrontendError::QueueError(QueueError::UsedRing)
    );
}

#[test]
fn a_config_space_ends_where_it_ends() {
    let config = [1u8, 2, 3, 4];
    let mut data = [9u8; 3];
    read_config(&config, 2, &mut data);
    assert_eq!(data, [3, 4, 9]);
    read_config(&config, 4, &mut data);
    read_config(&config, u64::MAX, &mut data);
    assert_eq!(data, [3, 4, 9]);
}

type Description = PortDescription<&'static str, &'static str, &'static str>;

#[test]
fn ports_are_made_of_what_they_are_given() {
    let c: Description = PortDescription::console(Some("in"), None, "tty");
    assert_eq!((c.name.as_str(), c.input, c.output, c.terminal), ("", Some("in"), None, Some("tty")));
    let o: Description = PortDescription::output_pipe("log".to_string(), "out");
    assert_eq!((o.name.as_str(), o.input, o.output, o.terminal), ("log", None, Some("out"), None));
    let i: Description = PortDescription::input_pipe("cmd".to_string(), "in");
    assert_eq!((i.name.as_str(), i.input, i.output, i.terminal), ("cmd", Some("in"), None, None));
}

#[test]
fn both_queues_come_back_from_a_port() {
    let d: Description = PortDescription::output_pipe("log".to_string(), "out");
    let mut port: Port<u32> = Port::new(4, &d);
    assert_eq!(port.name(), "log");
    assert!(!port.is_active());
    assert_eq!(port.shutdown(Some(1), Some(2)), (None, None));
    let threads = port.start(10, 20);
    // Only the side with an output has a thread.
    assert_eq!((threads.rx, threads.tx), (None, Some(20)));
    assert!(port.is_active() && port.notify_tx() && !port.notify_rx());
    assert_eq!(port.shutdown(None, threads.tx), (Some(10), Some(20)));
    assert!(!port.is_active() && !port.notify_tx());
    // A thread that panicked loses its queue, and no other.
    port.start(11, 21);
    assert_eq!(port.shutdown(None, None), (Some(11), None));
}
