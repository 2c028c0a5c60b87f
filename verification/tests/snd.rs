//! The sound device.
use devices::snd::audibility::{Audibility, PcmAudibility};
use devices::snd::device::{ActivateError, Snd, SndError, AVAIL_FEATURES, NUM_QUEUES};
use devices::snd::events::{
    after_wait, interest, route, service, AfterWait, LoopFds, Route, SndService, SndSource,
    WaitOutcome,
};
use devices::snd::protocol::{
    VirtioSndHdr, VirtioSndPcmHdr, VirtioSndPcmSetParams, VirtioSndQueryInfo,
    VIRTIO_SND_R_CHMAP_INFO, VIRTIO_SND_R_JACK_INFO, VIRTIO_SND_R_PCM_INFO,
    VIRTIO_SND_R_PCM_PREPARE, VIRTIO_SND_R_PCM_RELEASE, VIRTIO_SND_R_PCM_SET_PARAMS,
    VIRTIO_SND_R_PCM_START, VIRTIO_SND_R_PCM_STOP, VIRTIO_SND_S_BAD_MSG, VIRTIO_SND_S_NOT_SUPP,
    VIRTIO_SND_S_OK,
};
use devices::snd::ring::SpscRing;
use devices::snd::samples::{decode, encode, peak};
use devices::snd::stream::{
    device_of, host_period_frames, lead_frames, AudioStats, InputStream, OutputStream,
};
use devices::snd::trace::{TxTrace, TRACE_WINDOW_NS};
use devices::snd::unit::{PropertyValue, UnitCall, UnitDirection, UnitSetup};
use devices::snd::worker::{
    fill_rx, PcmEvent, PcmStreamState, SndAction, SndWorker, StreamParams, LATENCY_REFRESH_NS,
};

fn words(w: &[u32]) -> Vec<u8> {
    w.iter().flat_map(|v| v.to_le_bytes()).collect()
}

fn set_params(stream_id: u32, channels: u8) -> Vec<u8> {
    let mut b = words(&[VIRTIO_SND_R_PCM_SET_PARAMS, stream_id, 4096, 1024, 0]);
    b.extend_from_slice(&[channels, 5, 7, 0]);
    b
}

fn status(code: u32) -> Vec<u8> {
    code.to_le_bytes().to_vec()
}

/// A worker with a playback unit.
fn playing() -> SndWorker {
    let mut w = SndWorker::new(false, None);
    let r = w.handle_control_req(&words(&[VIRTIO_SND_R_PCM_PREPARE, 0]));
    assert_eq!(r.actions, vec![SndAction::CreateOutput(2)]);
    assert!(w.output_created(true));
    w
}

/// A buffer to play: its header and these samples.
fn tx(samples: &[i16]) -> Vec<u8> {
    let mut b = words(&[0]);
    encode(samples, &mut b);
    b
}

#[test]
fn messages_are_rows_of_little_endian_fields() {
    assert_eq!(VirtioSndHdr::parse(&[1, 2, 3]), None);
    assert_eq!(
        VirtioSndHdr::parse(&words(&[0x0105])),
        Some(VirtioSndHdr { code: 0x0105 })
    );
    let q = VirtioSndQueryInfo::parse(&words(&[1, 2, 3, 4]));
    assert_eq!((q.code, q.start_id, q.count, q.size), (1, 2, 3, 4));
    assert!(q.wants(2) && q.wants(4) && !q.wants(5) && !q.wants(1));
    // A range that runs over the top ends there.
    let top = VirtioSndQueryInfo::parse(&words(&[1, u32::MAX, 9, 4]));
    assert!(!top.wants(u32::MAX) && !top.wants(0));
    // A request that is too short counts as all zeros.
    assert_eq!(VirtioSndPcmHdr::parse(&words(&[7])).stream_id, 0);
    assert_eq!(VirtioSndPcmSetParams::parse(&set_params(1, 2)).channels, 2);
    assert_eq!(VirtioSndPcmSetParams::parse(&[9; 23]).channels, 0);
}

#[test]
fn a_query_lists_the_streams_that_there_are() {
    let mut off = SndWorker::new(false, None);
    let mut on = SndWorker::new(true, None);
    let all = words(&[VIRTIO_SND_R_PCM_INFO, 0, 2, 32]);
    let r = off.handle_control_req(&all).response;
    assert_eq!(r.len(), 4 + 32);
    assert_eq!(&r[..4], &status(VIRTIO_SND_S_OK)[..]);
    // Signed 16-bit, 48 kHz, output, two channels.
    assert_eq!(&r[12..20], &32u64.to_le_bytes());
    assert_eq!(&r[20..28], &128u64.to_le_bytes());
    assert_eq!(&r[28..31], &[0, 2, 2]);
    let r = on.handle_control_req(&all).response;
    assert_eq!(r.len(), 4 + 64);
    assert_eq!(&r[60..63], &[1, 1, 1]);
    let maps = words(&[VIRTIO_SND_R_CHMAP_INFO, 0, 9, 24]);
    let r = on.handle_control_req(&maps).response;
    assert_eq!(r.len(), 4 + 48);
    assert_eq!(&r[8..13], &[0, 2, 3, 4, 0]);
    assert_eq!(&r[32..36], &[1, 1, 2, 0]);
    // There are no jacks.
    assert_eq!(
        on.handle_control_req(&words(&[VIRTIO_SND_R_JACK_INFO, 0, 1, 4])).response,
        status(VIRTIO_SND_S_OK)
    );
}

#[test]
fn requests_that_make_no_sense_are_refused() {
    let mut w = SndWorker::new(false, None);
    assert_eq!(
        w.handle_control_req(&[1, 0]).response,
        status(VIRTIO_SND_S_BAD_MSG)
    );
    assert_eq!(
        w.handle_control_req(&words(&[0x9999])).response,
        status(VIRTIO_SND_S_NOT_SUPP)
    );
    // There is no microphone.
    let r = w.handle_control_req(&words(&[VIRTIO_SND_R_PCM_START, 1]));
    assert_eq!(r.response, status(VIRTIO_SND_S_BAD_MSG));
    assert!(r.actions.is_empty());
    assert_eq!(r.report, None);
    assert_eq!(
        w.handle_control_req(&set_params(1, 2)).response,
        status(VIRTIO_SND_S_BAD_MSG)
    );
    assert_eq!(
        w.handle_control_req(&set_params(0, 2)).response,
        status(VIRTIO_SND_S_OK)
    );
}

#[test]
fn every_accepted_move_of_a_stream_is_reported() {
    let mut w = playing();
    for (code, event) in [
        (VIRTIO_SND_R_PCM_PREPARE, PcmEvent::Prepare),
        (VIRTIO_SND_R_PCM_START, PcmEvent::Start),
        (VIRTIO_SND_R_PCM_STOP, PcmEvent::Stop),
        (VIRTIO_SND_R_PCM_RELEASE, PcmEvent::Release),
    ] {
        let r = w.handle_control_req(&words(&[code, 0]));
        assert_eq!(
            r.report,
            Some(PcmStreamState {
                stream_id: 0,
                event
            })
        );
        assert_eq!(r.response, status(VIRTIO_SND_S_OK));
        let expected = match event {
            PcmEvent::Prepare => vec![SndAction::StopOutput, SndAction::ResetOutput],
            PcmEvent::Start => vec![SndAction::StartOutput],
            PcmEvent::Stop => vec![SndAction::StopOutput],
            PcmEvent::Release => vec![SndAction::DropOutput],
        };
        assert_eq!(r.actions, expected);
    }
}

#[test]
fn buffers_go_back_once_they_are_played() {
    let mut w = playing();
    let a = w.process_tx(7, &tx(&[1, 2, 3, 4]));
    assert_eq!((a.frames, a.samples.clone()), (2, vec![1, 2, 3, 4]));
    assert_eq!(a.peak, Some(4));
    assert!(a.actions.is_empty());
    assert_eq!(a.status, words(&[VIRTIO_SND_S_OK, 0]));
    w.process_tx(8, &tx(&[0; 6]));
    assert!(w.reap_completions(1).is_empty());
    assert_eq!(
        w.reap_completions(2),
        vec![SndAction::Complete(7), SndAction::SignalUsed]
    );
    // Preparing again gives the rest back.
    let r = w.handle_control_req(&words(&[VIRTIO_SND_R_PCM_PREPARE, 0]));
    assert_eq!(
        r.actions,
        vec![
            SndAction::StopOutput,
            SndAction::Complete(8),
            SndAction::SignalUsed,
            SndAction::ResetOutput
        ]
    );
    assert!(w.reap_completions(u64::MAX).is_empty());
}

#[test]
fn without_a_unit_a_buffer_goes_back_at_once() {
    let mut w = SndWorker::new(false, None);
    w.handle_control_req(&words(&[VIRTIO_SND_R_PCM_PREPARE, 0]));
    assert!(!w.output_created(false));
    let a = w.process_tx(3, &tx(&[5, 6]));
    assert_eq!(
        a.actions,
        vec![SndAction::Complete(3), SndAction::SignalUsed]
    );
    // A buffer too short for its header has no frames.
    let b = w.process_tx(4, &[1, 2, 3]);
    assert_eq!((b.frames, b.peak), (0, None));
    assert!(w.reap_completions(99).is_empty());
}

#[test]
fn the_host_latency_is_told_in_bytes() {
    let mut w = playing();
    assert!(w.refresh_host_latency(10));
    w.latency_read(100);
    assert!(!w.refresh_host_latency(10 + LATENCY_REFRESH_NS - 1));
    assert!(w.refresh_host_latency(10 + LATENCY_REFRESH_NS));
    // Two channels of two bytes.
    assert_eq!(
        w.process_tx(1, &tx(&[0, 0])).status,
        words(&[VIRTIO_SND_S_OK, 400])
    );
    w.latency_read(u32::MAX);
    assert_eq!(
        w.process_tx(1, &tx(&[0, 0])).status,
        words(&[VIRTIO_SND_S_OK, u32::MAX])
    );
    w.handle_control_req(&words(&[VIRTIO_SND_R_PCM_RELEASE, 0]));
    assert!(!w.refresh_host_latency(u64::MAX));
    assert_eq!(
        w.process_tx(1, &tx(&[0, 0])).status,
        words(&[VIRTIO_SND_S_OK, 0])
    );
}

#[test]
fn the_guests_choice_of_channels_makes_the_frame() {
    assert_eq!(StreamParams::default().bytes_per_frame(), 4);
    let mut w = SndWorker::new(true, None);
    w.handle_control_req(&set_params(0, 1));
    w.handle_control_req(&set_params(1, 2));
    assert_eq!(w.process_tx(1, &tx(&[1, 2, 3])).frames, 3);
    let r = w.handle_control_req(&words(&[VIRTIO_SND_R_PCM_PREPARE, 0]));
    assert_eq!(r.actions.last(), Some(&SndAction::CreateOutput(1)));
    let r = w.handle_control_req(&words(&[VIRTIO_SND_R_PCM_PREPARE, 1]));
    assert_eq!(r.actions, vec![SndAction::CreateCapture(2)]);
}

#[test]
fn the_microphone_records_whole_buffers() {
    let mut w = SndWorker::new(true, None);
    assert_eq!(w.process_rx(1000, 24), None);
    let r = w.handle_control_req(&words(&[VIRTIO_SND_R_PCM_PREPARE, 1]));
    assert_eq!(r.actions, vec![SndAction::CreateCapture(1)]);
    assert!(w.capture_created(true));
    w.handle_control_req(&set_params(1, 1));
    // Sixteen bytes of samples and a status.
    assert_eq!(w.process_rx(7, 24), None);
    assert_eq!(w.process_rx(8, 24), Some(8));
    assert_eq!(w.process_rx(8, 8), None);
    assert_eq!(w.process_rx(8, 0), None);
    let filled = fill_rx(&[-1, 2], 14);
    assert_eq!(filled.len(), 14);
    assert_eq!(&filled[..6], &[0xff, 0xff, 2, 0, 0, 0]);
    assert_eq!(&filled[6..], &words(&[VIRTIO_SND_S_OK, 0])[..]);
    // Stopping and releasing give every buffer back.
    let r = w.handle_control_req(&words(&[VIRTIO_SND_R_PCM_START, 1]));
    assert_eq!(r.actions, vec![SndAction::StartCapture]);
    let r = w.handle_control_req(&words(&[VIRTIO_SND_R_PCM_STOP, 1]));
    assert_eq!(r.actions, vec![SndAction::StopCapture, SndAction::FlushRx]);
    let r = w.handle_control_req(&words(&[VIRTIO_SND_R_PCM_PREPARE, 1]));
    assert_eq!(
        r.actions,
        vec![SndAction::StopCapture, SndAction::ResetCapture]
    );
    let r = w.handle_control_req(&words(&[VIRTIO_SND_R_PCM_RELEASE, 1]));
    assert_eq!(r.actions, vec![SndAction::DropCapture, SndAction::FlushRx]);
    assert_eq!(w.process_rx(1000, 24), None);
    // Silence fills a buffer that goes back unrecorded.
    assert_eq!(fill_rx(&[], 10), [&[0, 0][..], &words(&[VIRTIO_SND_S_OK, 0])[..]].concat());
}

#[test]
fn silence_is_reported_once_it_has_lasted() {
    let mut a = Audibility::new(100);
    assert_eq!(a.buffer(60, true), None);
    assert_eq!(a.buffer(60, true), Some(PcmAudibility::Silent));
    assert_eq!(a.buffer(60, true), None);
    assert_eq!(a.buffer(1, false), Some(PcmAudibility::Audible));
    assert_eq!(a.buffer(1, false), None);
    // A shorter silence is no pause.
    assert_eq!(a.buffer(99, true), None);
    assert_eq!(a.buffer(1, false), None);
    // After the guest moved the stream everything is news.
    a.reset();
    assert_eq!(a.buffer(1, false), Some(PcmAudibility::Audible));
}

#[test]
fn the_worker_reports_what_is_heard() {
    let mut w = SndWorker::new(false, Some(4));
    w.handle_control_req(&words(&[VIRTIO_SND_R_PCM_PREPARE, 0]));
    w.output_created(true);
    assert_eq!(
        w.process_tx(1, &tx(&[9, 0])).edge,
        Some(PcmAudibility::Audible)
    );
    assert_eq!(w.process_tx(2, &tx(&[0; 4])).edge, None);
    assert_eq!(
        w.process_tx(3, &tx(&[0; 4])).edge,
        Some(PcmAudibility::Silent)
    );
    w.handle_control_req(&words(&[VIRTIO_SND_R_PCM_STOP, 0]));
    assert_eq!(
        w.process_tx(4, &tx(&[9, 0])).edge,
        Some(PcmAudibility::Audible)
    );
}

#[test]
fn samples_are_little_endian_and_signed() {
    assert_eq!(
        decode(&[0x01, 0x00, 0xff, 0xff, 0x00, 0x80, 0x07]),
        vec![1, -1, i16::MIN]
    );
    let mut b = vec![9];
    encode(&[1, -1, i16::MIN, 300], &mut b);
    assert_eq!(b, vec![9, 1, 0, 0xff, 0xff, 0x00, 0x80, 0x2c, 0x01]);
    assert_eq!(peak(&[1, -5, 4]), 5);
    assert_eq!(peak(&[i16::MIN]), 32768);
    assert_eq!(peak(&[]), 0);
}

#[test]
fn a_ring_gives_back_what_it_took_in_order() {
    let mut r = SpscRing::new(4);
    assert_eq!(r.push(&[1, 2, 3]), 3);
    let mut out = [0i16; 2];
    assert_eq!(r.pull(&mut out), 2);
    assert_eq!(out, [1, 2]);
    // It wraps around, and takes no more than it has room for.
    assert_eq!(r.push(&[4, 5, 6, 7]), 3);
    assert_eq!(r.available(), 4);
    let mut all = [9i16; 6];
    assert_eq!(r.pull(&mut all), 4);
    assert_eq!(all, [3, 4, 5, 6, 9, 9]);
    r.push(&[1]);
    r.reset();
    assert_eq!(r.available(), 0);
    assert_eq!(SpscRing::new(0).push(&[1]), 0);
}

#[test]
fn a_callback_pads_with_silence_and_counts_it() {
    let mut stats = AudioStats::new();
    let mut s = OutputStream::new(2, 0);
    assert_eq!(s.push_samples(&[1, 2, 3, 4], &mut stats), 4);
    assert_eq!(s.frames_queued(), 2);
    let mut out = [7i16; 6];
    assert!(s.render(&mut out, &mut stats));
    assert_eq!(out, [1, 2, 3, 4, 0, 0]);
    assert_eq!((s.frames_consumed(), s.frames_paced()), (2, 2));
    assert_eq!(stats.snapshot(), (1, 1, 1, 2, 0));
    // Nothing is left: nobody is woken, and nothing counts as played.
    assert!(!s.render(&mut out, &mut stats));
    assert_eq!(s.frames_consumed(), 2);
    assert_eq!(stats.snapshot(), (2, 2, 4, 0, 0));
    assert_eq!(stats.min_avail, u64::MAX);
    // Samples without room are counted.
    let second = vec![1i16; 2 * 48_000];
    assert_eq!(s.push_samples(&second, &mut stats), second.len());
    assert_eq!(s.push_samples(&[1, 2], &mut stats), 0);
    assert_eq!(stats.dropped, 2);
    s.reset(&mut stats);
    assert_eq!((s.frames_queued(), s.frames_consumed()), (0, 0));
    assert_eq!(stats.dropped, 2);
}

#[test]
fn a_stream_is_started_and_stopped_once() {
    let mut s = OutputStream::new(1, 300);
    assert_eq!((s.lead_frames(), s.frames_paced()), (300, 300));
    assert!(!s.stop());
    assert!(s.start());
    s.started(false);
    assert!(s.start());
    s.started(true);
    assert!(!s.start());
    assert!(s.stop());
    assert!(!s.stop());
    let mut c = InputStream::new(2);
    assert!(c.start());
    c.started(true);
    assert!(!c.start());
    assert!(c.stop());
    assert_eq!(c.capture_samples(10), 20);
    assert_eq!(c.capture_samples(u32::MAX), 2 * 8192);
    assert_eq!(c.captured(&[1, 2, 3]), 3);
    let mut out = [0i16; 2];
    assert_eq!(c.pull_samples(&mut out), 2);
    assert_eq!((out, c.available()), ([1, 2], 1));
    c.reset();
    assert_eq!(c.available(), 0);
}

#[test]
fn the_lead_is_bounded_and_off_by_default() {
    assert_eq!(lead_frames(None), 0);
    assert_eq!(lead_frames(Some(0)), 0);
    assert_eq!(lead_frames(Some(1)), 256);
    assert_eq!(lead_frames(Some(1000)), 1000);
    assert_eq!(lead_frames(Some(9999)), 2048);
    assert_eq!(host_period_frames(None), 512);
    assert_eq!(host_period_frames(Some((0, 1024))), 1024);
    assert_eq!(host_period_frames(Some((0, 0))), 512);
    assert_eq!(host_period_frames(Some((-1, 1024))), 512);
    assert_eq!(device_of(0, 9), Some(9));
    assert_eq!(device_of(0, 0), None);
    assert_eq!(device_of(5, 9), None);
}

#[test]
fn an_output_unit_is_brought_up_call_by_call() {
    let mut s = UnitSetup::new(UnitDirection::Output, 2);
    let mut calls = Vec::new();
    while let Some(c) = s.due() {
        calls.push(c);
        s.advance(0, 0);
    }
    assert_eq!(s.outcome(), Some(Ok(())));
    assert_eq!(calls.len(), 5);
    assert!(matches!(calls[0], UnitCall::Find(d) if d.component_sub_type == 0x6465_6620));
    assert_eq!(calls[1], UnitCall::Instantiate);
    assert!(matches!(
        calls[2],
        UnitCall::SetProperty { id: 8, scope: 1, element: 0, value: PropertyValue::Format(f) }
            if f.bytes_per_frame == 8 && f.channels_per_frame == 2 && f.sample_rate == 48_000
    ));
    assert_eq!(calls[4], UnitCall::Initialize);
}

#[test]
fn an_input_unit_is_put_on_the_default_device() {
    let mut s = UnitSetup::new(UnitDirection::Input, 1);
    let mut calls = Vec::new();
    while let Some(c) = s.due() {
        calls.push(c);
        s.advance(0, if c == UnitCall::DefaultInput { 42 } else { 7 });
    }
    assert_eq!(calls.len(), 9);
    assert_eq!(
        calls[5],
        UnitCall::SetProperty {
            id: 2000,
            scope: 0,
            element: 0,
            value: PropertyValue::Word(42)
        }
    );
    assert_eq!(s.outcome(), Some(Ok(())));
}

#[test]
fn a_bring_up_that_fails_leaves_no_unit() {
    for fail_at in 0..9usize {
        let mut s = UnitSetup::new(UnitDirection::Input, 1);
        let mut disposed = 0;
        let mut n = 0usize;
        while let Some(c) = s.due() {
            if c == UnitCall::Dispose {
                disposed += 1;
                s.advance(99, 0);
            } else {
                s.advance(if n == fail_at { -50 } else { 0 }, 0);
            }
            n += 1;
        }
        let status = if fail_at == 0 { -1 } else { -50 };
        assert_eq!(s.outcome(), Some(Err(status)));
        assert_eq!(disposed, if fail_at < 2 { 0 } else { 1 });
    }
}

#[test]
fn a_trace_line_comes_once_a_second() {
    let mut t = TxTrace::new(0);
    t.buffer(1000, 10, 0);
    t.buffer(2_501_000, 10, 0);
    t.buffer(2_502_000, 20, 300);
    t.buffer(2_503_000, 5, 0);
    assert_eq!(t.flush(TRACE_WINDOW_NS - 1), None);
    let line = t.flush(TRACE_WINDOW_NS).unwrap();
    assert_eq!((line.buffers, line.frames, line.peak), (4, 45, 300));
    assert_eq!((line.zeros, line.zero_run_max), (3, 2));
    assert_eq!(line.max_gap_us, 2500);
    assert_eq!(line.idle_ms, Some(997));
    // A run of silence goes on into the next window.
    let next = t.flush(2 * TRACE_WINDOW_NS).unwrap();
    assert_eq!((next.buffers, next.zero_run_max), (0, 1));
    assert_eq!(TxTrace::new(0).flush(TRACE_WINDOW_NS).unwrap().idle_ms, None);
}

#[test]
fn wakes_are_served_by_their_number() {
    assert_eq!(interest(false).len(), 4);
    assert!(interest(true).contains(&SndSource::Rx));
    assert!(!interest(false).contains(&SndSource::Rx));
    assert_eq!(service(SndSource::Control.token(), false), SndService::Control);
    assert_eq!(service(SndSource::Tx.token(), false), SndService::Tx);
    assert_eq!(service(SndSource::Rx.token(), true), SndService::Rx);
    assert_eq!(
        service(SndSource::Completion.token(), true),
        SndService::Reap { rx: true }
    );
    assert_eq!(service(SndSource::Stop.token(), false), SndService::Stop);
    assert_eq!(service(5, false), SndService::Unexpected);
    assert_eq!(after_wait(WaitOutcome::Ready), AfterWait::Serve);
    assert_eq!(after_wait(WaitOutcome::Interrupted), AfterWait::WaitAgain);
    assert_eq!(after_wait(WaitOutcome::Failed), AfterWait::End);
}

#[test]
fn a_shared_loop_routes_by_descriptor() {
    let fds = LoopFds {
        activate: 1,
        control: 2,
        tx: 3,
    };
    assert_eq!(route(&fds, 1, true, false), Route::Activate);
    assert_eq!(route(&fds, 2, true, false), Route::Spurious);
    assert_eq!(route(&fds, 2, true, true), Route::Control);
    assert_eq!(route(&fds, 3, true, true), Route::Tx);
    assert_eq!(route(&fds, 3, false, true), Route::WrongEvent);
    assert_eq!(route(&fds, 9, true, true), Route::UnknownFd);
}

#[test]
fn the_config_space_is_read_whole_or_not_at_all() {
    let dev = Snd::new(true);
    assert_eq!(dev.id(), "virtio_snd");
    assert_eq!(dev.avail_features(), AVAIL_FEATURES);
    let mut all = [0u8; 16];
    dev.read_config(0, &mut all);
    assert_eq!(all.to_vec(), words(&[0, 2, 2, 0]));
    let mut streams = [0u8; 4];
    Snd::new(false).read_config(4, &mut streams);
    assert_eq!(streams, [1, 0, 0, 0]);
    let mut past = [7u8; 4];
    dev.read_config(13, &mut past);
    dev.read_config(u64::MAX, &mut past);
    assert_eq!(past, [7; 4]);
}

#[test]
fn an_activation_replaces_the_worker() {
    let mut dev = Snd::new(false);
    assert_eq!(dev.activate(3, true), Err(ActivateError::BadActivate));
    assert_eq!(dev.activate(NUM_QUEUES, false), Err(ActivateError::BadActivate));
    assert_eq!(dev.activate(NUM_QUEUES, true), Ok(false));
    assert!(dev.is_activated());
    assert_eq!(dev.activate(NUM_QUEUES, true), Ok(true));
    assert!(dev.reset());
    assert!(!dev.is_activated());
    assert!(!dev.reset());
    dev.set_acked_features(3);
    assert_eq!(dev.acked_features(), 3);
    assert_eq!(SndError::EventFd(9), SndError::EventFd(9));
}
