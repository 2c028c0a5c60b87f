//! The GPU device's parts: scanouts, fences, the journal, presents and the device's life.
use devices::display::{DisplayInfo, DisplayInfoEdid};
use devices::gpu::ack::parse_shown;
use devices::gpu::channels::{pipewire_place, wayland_path, x11_path};
use devices::gpu::device::{ActivateError, Gpu};
use devices::gpu::fence::{
    classify_completion, interrupt_wanted, mark_fence_completed_sync, Completion, FenceState,
    RendererFence, VirtioGpuRing,
};
use devices::gpu::journal::GpuJournal;
use devices::gpu::payload::{read_mem_entries, read_submission};
use devices::gpu::present::{
    fence_present_policy, HoldAction, ParkedFlush, PresentFenceState, Rect, ACK_FALLBACK_NS,
    HOLD_CEILING_NS,
};
use devices::gpu::protocol::{
    GpuResponse, RendererError, ResourceFormat, VIRTIO_GPU_FLAG_FENCE,
    VIRTIO_GPU_FLAG_INFO_RING_IDX, VIRTIO_GPU_MAX_SCANOUTS,
};
use devices::gpu::scanout::{blit_scanout_rect, checked_blob_map_addr, AssociatedScanouts};
use devices::gpu::trace::{dump_due, GpuTraceStats, TickSnapshot};
use devices::gpu::virtio_gpu::{latch_delay_ns, map_access, MapAccess, VirtioGpu, VirtioShmRegion};
use devices::gpu::worker::{
    drain_fences, stop_action, take_display_update, DisplayUpdate, Drain, DrainEvent, DrainVerdict,
    InnerExit, Source, StopAction, StopPeek, WakeCounts, WorkerCmd, WorkerFds,
};
use devices::gpu_snapshot::GpuJournalOp;
use std::collections::VecDeque;

/// A detach does not erase the attach: what was made while the resource was attached lives on, and
/// is made again only with the resource attached.
#[test]
fn a_detach_keeps_the_attach_the_replay_needs() {
    let mut j = GpuJournal::new(GpuTraceStats::default());
    j.ctx_create(9, 0x2, Some("Renderer".into()));
    j.ctx_attach_resource(9, 1239);
    j.ctx_detach_resource(9, 1239);
    let attaches = j
        .entries()
        .iter()
        .filter(|e| {
            matches!(
                e.op,
                GpuJournalOp::CtxAttachResource {
                    ctx_id: 9,
                    resource_id: 1239,
                    ..
                }
            )
        })
        .count();
    assert_eq!(attaches, 1, "the detach erased the attach");
    // Attached and detached every frame: still one record, and it says what is true now.
    j.ctx_attach_resource(9, 1239);
    assert!(matches!(
        j.entries().last().map(|e| &e.op),
        Some(GpuJournalOp::CtxAttachResource {
            detached: false,
            ..
        })
    ));
    j.ctx_detach_resource(9, 1239);
    assert_eq!(j.entries().len(), 2);
    assert!(matches!(
        j.entries()[1].op,
        GpuJournalOp::CtxAttachResource { detached: true, .. }
    ));
}

// Presents wait for fences exactly when the display confirms what it shows; a setting wins.
#[test]
fn fence_present_defaults_on_only_with_ack_channel() {
    assert!(fence_present_policy(None, true));
    assert!(!fence_present_policy(None, false));
    assert!(fence_present_policy(Some("1"), false));
    assert!(!fence_present_policy(Some("0"), true));
    assert!(!fence_present_policy(Some("off"), true));
    assert!(!fence_present_policy(Some("OFF"), true));
    // Any other value turns them on.
    assert!(fence_present_policy(Some(""), false));
}

// The visible rectangle can be narrower than the resource behind it: a flat copy would shear.
#[test]
fn blit_scanout_rect_de_shears_padded_resource() {
    // Four pixels of six are visible, in three rows. The first byte of a pixel says where it is.
    let (src_w, dst_w, rows) = (6usize, 4usize, 3usize);
    let (src_stride, dst_stride) = (src_w * 4, dst_w * 4);
    let mut src = vec![0u8; src_stride * rows];
    for y in 0..rows {
        for x in 0..src_w {
            src[y * src_stride + x * 4] = (y * 10 + x) as u8;
        }
    }
    let mut dst = vec![0u8; dst_stride * rows];
    blit_scanout_rect(&mut dst, dst_stride, &src, src_stride, rows);
    for y in 0..rows {
        for x in 0..dst_w {
            assert_eq!(
                dst[y * dst_stride + x * 4],
                (y * 10 + x) as u8,
                "sheared at row {y} col {x}"
            );
        }
    }
}

#[test]
fn blit_scanout_rect_flat_copies_when_strides_match() {
    let src: Vec<u8> = (0..(4 * 4 * 2) as u8).collect();
    let mut dst = vec![0u8; src.len()];
    blit_scanout_rect(&mut dst, 4 * 4, &src, 4 * 4, 2);
    assert_eq!(dst, src);
}

// Without a renderer nothing signals a fence later: it is complete at once, or the guest hangs.
#[test]
fn test_software_2d_fence_retires_synchronously() {
    let mut fence_state = FenceState::default();
    let fence = RendererFence {
        flags: 0, // no ring of a context: the global one
        fence_id: 1,
        ctx_id: 0,
        ring_idx: 0,
    };

    let completed = fence_state.completed(&VirtioGpuRing::Global);
    assert!(
        fence.fence_id > completed,
        "precondition: fence not yet complete"
    );

    mark_fence_completed_sync(&mut fence_state, &fence);

    let completed = fence_state.completed(&VirtioGpuRing::Global);
    assert!(
        fence.fence_id <= completed,
        "software-2D fence must be marked completed synchronously"
    );
}

#[test]
fn checked_blob_map_addr_rejects_out_of_range_and_wrapping_offsets() {
    let base = 0x1_0000_u64;
    let shm = 0x1_0000_u64;

    assert_eq!(
        checked_blob_map_addr(base, 0x1000, 0x2000, shm),
        Some(base + 0x1000)
    );
    assert_eq!(checked_blob_map_addr(base, 0, shm, shm), Some(base));
    assert!(checked_blob_map_addr(base, shm, 1, shm).is_none());

    let size = 0x1000_u64;
    let wrapping_offset = u64::MAX - size + 1;
    assert!(wrapping_offset.wrapping_add(size) <= shm);
    assert!(checked_blob_map_addr(base, wrapping_offset, size, shm).is_none());

    assert!(checked_blob_map_addr(u64::MAX - 5, 10, 0, u64::MAX).is_none());
}

#[test]
fn test_virtio_gpu_associated_scanouts() {
    let mut scanouts = AssociatedScanouts::default();

    assert!(!scanouts.has_any_enabled());
    assert_eq!(scanouts.iter_enabled().first(), None);

    scanouts.enable(1);
    assert!(scanouts.has_any_enabled());
    scanouts.disable(1);
    assert!(!scanouts.has_any_enabled());

    (0..VIRTIO_GPU_MAX_SCANOUTS).for_each(|scanout| scanouts.enable(scanout));
    assert!(scanouts.has_any_enabled());
    assert_eq!(
        scanouts.iter_enabled(),
        (0..VIRTIO_GPU_MAX_SCANOUTS).collect::<Vec<u32>>()
    );

    (0..VIRTIO_GPU_MAX_SCANOUTS)
        .filter(|&i| i % 2 == 0)
        .for_each(|scanout| scanouts.disable(scanout));
    assert_eq!(
        scanouts.iter_enabled(),
        (1..VIRTIO_GPU_MAX_SCANOUTS)
            .step_by(2)
            .collect::<Vec<u32>>()
    );

    (0..VIRTIO_GPU_MAX_SCANOUTS)
        .filter(|&i| i % 2 != 0)
        .for_each(|scanout| scanouts.disable(scanout));
    assert!(!scanouts.has_any_enabled());
}

// The worker owns the renderer, which can be set up once: it is started once and outlives resets.
#[test]
fn test_worker_persists_across_reset() {
    let mut gpu = Gpu::new(true, 0);
    let region = VirtioShmRegion {
        host_addr: 0,
        guest_addr: 0,
        size: 0,
    };
    gpu.set_shm_region(region);

    // The first activation starts the worker.
    let plan = gpu.activate(2).unwrap();
    assert_eq!(plan.spawn, Some(region));
    gpu.handed_over(true).unwrap();
    assert!(gpu.is_activated());
    assert!(gpu.worker_started());

    // A reset leaves it running.
    assert!(gpu.reset());
    assert!(!gpu.is_activated());
    assert!(gpu.worker_started(), "worker must survive reset");

    // The next activation starts no second one.
    let plan = gpu.activate(2).unwrap();
    assert_eq!(plan.spawn, None);
    gpu.handed_over(true).unwrap();
    assert!(gpu.is_activated());
}

#[test]
fn an_activation_that_cannot_begin_changes_nothing() {
    let mut gpu = Gpu::new(false, 1);
    assert_eq!(gpu.activate(3).err(), Some(ActivateError::BadActivate));
    assert!(!gpu.is_activated());
    assert!(!gpu.worker_started());
    assert_eq!(gpu.avail_features(), (1 << 32) | 0x1f);
    assert_eq!(Gpu::new(true, 1).avail_features(), (1 << 32) | 2 | 4);
    gpu.set_acked_features(4);
    assert_eq!(gpu.acked_features(), 4);
    assert_eq!(gpu.shm_region(), None);
}

#[test]
fn the_config_space_names_the_scanouts() {
    let gpu = Gpu::new(true, 3);
    let mut data = [0xffu8; 16];
    gpu.read_config(0, &mut data);
    assert_eq!(&data[8..12], &[3, 0, 0, 0]);
    let mut one = [0u8; 1];
    gpu.read_config(8, &mut one);
    assert_eq!(one, [3]);
}

#[test]
fn a_renderers_fence_retires_what_waits_up_to_it() {
    let mut st = FenceState::default();
    assert!(!st.process_fence(VirtioGpuRing::Global, 5, 10, 24, 0));
    assert!(!st.process_fence(VirtioGpuRing::Global, 7, 11, 24, 0));
    assert_eq!(st.outstanding(), 2);
    let fence = |fence_id| RendererFence {
        flags: 0,
        fence_id,
        ctx_id: 0,
        ring_idx: 0,
    };
    assert_eq!(st.complete(&fence(5)), vec![(10, 24)]);
    assert_eq!(st.outstanding(), 1);
    // One that is already complete does not wait.
    assert!(st.process_fence(VirtioGpuRing::Global, 4, 12, 24, 0));
    assert_eq!(st.complete(&fence(9)), vec![(11, 24)]);
    assert_eq!(st.completed(&VirtioGpuRing::Global), 9);
    st.clear();
    assert_eq!(st.completed(&VirtioGpuRing::Global), 0);
}

#[test]
fn a_second_completion_does_nothing() {
    let mut st = FenceState::default();
    assert!(!st.process_fence(VirtioGpuRing::Global, 5, 10, 24, 0));
    assert!(!st.process_fence(VirtioGpuRing::Global, 7, 11, 24, 0));
    let fence = RendererFence {
        flags: 0,
        fence_id: 5,
        ctx_id: 0,
        ring_idx: 0,
    };
    assert_eq!(st.complete(&fence), vec![(10, 24)]);
    assert_eq!(st.complete(&fence), vec![]);
    assert_eq!(st.outstanding(), 1);
    assert_eq!(st.completed(&VirtioGpuRing::Global), 5);
}

#[test]
fn a_fence_of_a_ring_is_of_that_ring() {
    let f = RendererFence {
        flags: VIRTIO_GPU_FLAG_FENCE | VIRTIO_GPU_FLAG_INFO_RING_IDX,
        fence_id: 3,
        ctx_id: 6,
        ring_idx: 2,
    };
    assert_eq!(
        f.ring(),
        VirtioGpuRing::ContextSpecific {
            ctx_id: 6,
            ring_idx: 2
        }
    );
    // The last ring is kept for presents.
    let present = RendererFence { ring_idx: 63, ..f };
    assert!(matches!(
        classify_completion(&present, true),
        Completion::Present(3)
    ));
    assert!(interrupt_wanted(true, None));
    assert!(!interrupt_wanted(false, Some(true)));
    assert!(!interrupt_wanted(true, Some(false)));
}

#[test]
fn the_journal_keeps_what_is_alive() {
    let mut j = GpuJournal::new(GpuTraceStats::default());
    j.ctx_create(1, 4, None);
    j.create_blob(1, 5, 2, 1, 77, 4096, Vec::new(), 3);
    j.map_blob(5, 0);
    j.map_blob(5, 8192);
    j.set_scanout_blob(0, 5, 640, 480, 67);
    assert_eq!(j.entries().len(), 4);
    assert!(matches!(
        j.entries()[2].op,
        GpuJournalOp::MapBlob { offset: 8192, .. }
    ));
    // The resource takes its entries with it, and says which blob to let go.
    assert_eq!(j.resource_unref(5), Some((1, 77)));
    assert_eq!(j.entries().len(), 1);
    j.ctx_destroy(1);
    assert!(j.entries().is_empty());
    let census = j.dump();
    assert_eq!((census.live, census.recorded, census.pruned), (0, 5, 5));
    assert!(j.room_left());
    // Numbers go on.
    j.resource_create_2d(2, 67, 8, 8);
    j.attach_backing(2, vec![(0x1000, 64)]);
    j.detach_backing(2);
    j.set_scanout(0, 2, 8, 8);
    j.set_scanout(0, 0, 0, 0);
    assert_eq!(j.entries().len(), 1);
    assert_eq!(j.entries()[0].seq, 6);
    j.reset();
    assert!(j.entries().is_empty());
}

#[test]
fn refusals_are_counted_by_what_was_unknown() {
    let mut t = GpuTraceStats::default();
    t.classify_error(&GpuResponse::ErrInvalidContextId);
    assert!(t.dump_requested);
    t.dump_requested = false;
    t.classify_error(&GpuResponse::ErrRutabaga(RendererError::InvalidContextId));
    assert!(!t.dump_requested);
    t.classify_error(&GpuResponse::ErrInvalidResourceId);
    t.classify_error(&GpuResponse::ErrUnspec);
    assert_eq!((t.unknown_ctx, t.unknown_resource, t.errors_other), (2, 1, 1));
    let mut last = TickSnapshot {
        submits: 0,
        unknown_ctx: 1,
        unknown_resource: 0,
        errors_other: 0,
        fences_requested: 0,
        fences_retired: 0,
    };
    let moved = last.advance(&t);
    assert_eq!((moved.unknown_ctx, moved.unknown_resource), (1, 1));
    assert_eq!(last.unknown_ctx, 2);
    assert!(dump_due(true, 20));
    assert!(!dump_due(true, 21));
    assert!(!dump_due(false, 20));
}

fn frame(scanout_id: u32, iosurface_id: u32) -> ParkedFlush {
    ParkedFlush {
        scanout_id,
        iosurface_id,
        resource_id: 9,
        rect: Rect {
            x: 0,
            y: 0,
            width: 8,
            height: 8,
        },
    }
}

fn global(fence_id: u64) -> RendererFence {
    RendererFence {
        flags: VIRTIO_GPU_FLAG_FENCE,
        fence_id,
        ctx_id: 0,
        ring_idx: 0,
    }
}

#[test]
fn a_flush_waits_for_its_frame_to_be_shown() {
    let mut p = PresentFenceState::new(0, true);
    p.begin_flush();
    let gate = p.park(frame(0, 40), 3);
    assert_eq!((gate.ctx_id, gate.ring_idx), (3, 63));
    // The flush's own fence is held.
    assert_eq!(
        p.hold_flush_fence(global(5), true, 1000),
        Some(1000 + HOLD_CEILING_NS)
    );
    assert!(!p.present_quiescent(false));
    // The frame is ready: it is presented, and the fence waits for the display to say so.
    let round = p.process_retired_presents(&[gate.fence_id], &[], 2000);
    assert_eq!(round.hits, vec![frame(0, 40)]);
    // Should the display never say so, the fence completes without it.
    assert_eq!(
        round.actions,
        vec![HoldAction::Latch(2000 + ACK_FALLBACK_NS, global(5))]
    );
    // The display shows it.
    let round = p.process_retired_presents(&[], &[40], 3000);
    assert_eq!(round.actions, vec![HoldAction::Complete(global(5))]);
    assert!(p.present_quiescent(false));
}

#[test]
fn a_display_that_stays_silent_does_not_hold_a_fence_for_good() {
    let mut p = PresentFenceState::new(0, true);
    p.begin_flush();
    let gate = p.park(frame(0, 40), 3);
    p.hold_flush_fence(global(5), true, 0);
    let round = p.process_retired_presents(&[gate.fence_id], &[], 1000);
    assert_eq!(
        round.actions,
        vec![HoldAction::Latch(1000 + ACK_FALLBACK_NS, global(5))]
    );
    // Once that time has passed nothing is left to do.
    let late = p.process_retired_presents(&[], &[], 1001 + ACK_FALLBACK_NS);
    assert!(late.actions.is_empty());
    let shown = p.process_retired_presents(&[], &[40], 1002 + ACK_FALLBACK_NS);
    assert!(shown.actions.is_empty());
    assert!(p.present_quiescent(false));
}

#[test]
fn without_confirmations_a_fence_is_latched() {
    let mut p = PresentFenceState::new(7, false);
    p.begin_flush();
    let gate = p.park(frame(0, 40), 3);
    p.hold_flush_fence(global(5), true, 0);
    let round = p.process_retired_presents(&[gate.fence_id], &[], 100);
    assert_eq!(round.actions, vec![HoldAction::Latch(107, global(5))]);
    assert!(p.room_left());
}

#[test]
fn a_fence_without_a_parked_frame_is_not_held() {
    let mut p = PresentFenceState::new(0, true);
    assert_eq!(p.hold_flush_fence(global(5), true, 0), None);
    p.begin_flush();
    let gate = p.park(frame(0, 40), 3);
    assert_eq!(p.hold_flush_fence(global(5), false, 0), None);
    p.unpark(gate.fence_id);
    assert_eq!(p.hold_flush_fence(global(5), true, 0), None);
    p.park(frame(1, 41), 3);
    p.reset();
    assert!(p.present_quiescent(false));
    assert!(!p.present_quiescent(true));
}

#[test]
fn what_the_display_shows_is_a_word_and_a_number() {
    assert_eq!(parse_shown("shown 42"), Some(42));
    assert_eq!(parse_shown("  shown   7  "), Some(7));
    assert_eq!(parse_shown("shown 4294967296"), None);
    assert_eq!(parse_shown("shown"), None);
    assert_eq!(parse_shown("show 3"), None);
    assert_eq!(parse_shown("shown x"), None);
}

#[test]
fn channel_paths_follow_the_session() {
    assert_eq!(wayland_path(None, None), "/run/user/1000/wayland-0");
    assert_eq!(
        wayland_path(Some("/run/user/7"), Some("wayland-1")),
        "/run/user/7/wayland-1"
    );
    assert_eq!(x11_path(":3"), Some("/tmp/.X11-unix/X3".to_string()));
    assert_eq!(x11_path("host:3"), None);
    assert_eq!(x11_path(""), None);
    let text = |s: &str| Some(s.to_string());
    assert_eq!(
        pipewire_place(None, text("/run/user/7"), text("/home"), None),
        Some(("/run/user/7".to_string(), "pipewire-0".to_string()))
    );
    assert_eq!(
        pipewire_place(text("/pw"), text("/run/user/7"), None, text("pw-1")),
        Some(("/pw".to_string(), "pw-1".to_string()))
    );
    assert_eq!(pipewire_place(None, None, None, text("pw-1")), None);
}

#[test]
fn a_backing_is_read_entry_by_entry() {
    let mut payload = Vec::new();
    payload.extend_from_slice(&0x1000u64.to_le_bytes());
    payload.extend_from_slice(&0x200u32.to_le_bytes());
    payload.extend_from_slice(&0u32.to_le_bytes());
    assert_eq!(read_mem_entries(&payload, 1), Some(vec![(0x1000, 0x200)]));
    assert_eq!(read_mem_entries(&payload, 2), None);
    assert_eq!(read_mem_entries(&payload, 0), Some(Vec::new()));
    let (ids, cmds) = read_submission(&payload, 1, 8).unwrap();
    assert_eq!(ids, vec![0x1000]);
    assert_eq!(cmds, vec![0, 2, 0, 0, 0, 0, 0, 0]);
    assert!(read_submission(&payload, 1, 9).is_err());
    assert!(read_submission(&payload, 3, 0).is_err());
}

#[test]
fn formats_have_codes_and_alpha() {
    for code in [1u32, 2, 3, 4, 67, 68, 121, 134] {
        assert_eq!(ResourceFormat::from_code(code).unwrap().to_code(), code);
    }
    assert_eq!(ResourceFormat::from_code(5), None);
    assert_eq!(ResourceFormat::BGRX.with_alpha(), ResourceFormat::BGRA);
    assert_eq!(ResourceFormat::RGBA.with_alpha(), ResourceFormat::RGBA);
}

#[test]
fn blob_memory_is_mapped_as_the_renderer_says() {
    assert!(matches!(map_access(0x10), Some(MapAccess::Read)));
    assert!(matches!(map_access(0x20), Some(MapAccess::Write)));
    assert!(matches!(map_access(0x30), Some(MapAccess::ReadWrite)));
    assert!(map_access(0x03).is_none());
    assert_eq!(latch_delay_ns(Some(3)), 3_000_000);
    assert_eq!(latch_delay_ns(Some(u64::MAX)), u64::MAX);
    // Venus alone, virgl alone, and both.
    let mask = VirtioGpu::capset_mask_from_virgl_flags;
    assert_eq!(mask(0x40 | 0x80), 1 << 4);
    assert_eq!(mask(0), (1 << 1) | (1 << 2));
    assert_eq!(mask(0x40), (1 << 4) | (1 << 1) | (1 << 2));
}

#[test]
fn wakes_are_told_apart_by_their_descriptor() {
    let fds = WorkerFds {
        stop: 3,
        control: 4,
        cursor: 5,
        resize: 6,
        present: -1,
        renderer_poll: 8,
    };
    assert_eq!(fds.source_of(3), Source::Stop);
    assert_eq!(fds.source_of(4), Source::Control);
    assert_eq!(fds.source_of(5), Source::Cursor);
    assert_eq!(fds.source_of(6), Source::Resize);
    assert_eq!(fds.source_of(8), Source::RendererPoll);
    // There is no present channel, and no descriptor below zero.
    assert_eq!(fds.source_of(-1), Source::Unknown);
    let mut counts = WakeCounts::new();
    counts.note_wake(&[Source::Control, Source::Control, Source::Unknown]);
    assert_eq!((counts.wakes, counts.control, counts.other), (1, 2, 1));
    assert_eq!(counts.take_report(1), None);
    assert_eq!(counts.take_report(u64::MAX).unwrap().control, 2);
    assert_eq!(counts.wakes, 0);
}

#[test]
fn a_stop_is_obeyed_by_what_was_sent() {
    assert_eq!(
        stop_action(StopPeek::Cmd(WorkerCmd::Deactivate)),
        StopAction::Exit(InnerExit::Deactivate)
    );
    assert_eq!(
        stop_action(StopPeek::Disconnected),
        StopAction::Exit(InnerExit::Shutdown)
    );
    assert_eq!(
        stop_action(StopPeek::Cmd(WorkerCmd::Snapshot)),
        StopAction::Snapshot
    );
    assert_eq!(
        stop_action(StopPeek::Cmd(WorkerCmd::Activate { thaw: false })),
        StopAction::Ignore
    );
    assert_eq!(stop_action(StopPeek::Empty), StopAction::Ignore);
}

#[test]
fn a_drain_signals_and_looks_again() {
    let d = Drain::Disable.next(DrainEvent::Done);
    assert_eq!(d, Drain::Process);
    let d = d.next(DrainEvent::Processed(true));
    assert_eq!(d, Drain::AskNotify);
    let d = d.next(DrainEvent::Notify(Some(true)));
    assert_eq!(d, Drain::Signal);
    let d = d.next(DrainEvent::Done);
    assert_eq!(d, Drain::Enable);
    // More came in meanwhile.
    assert_eq!(d.next(DrainEvent::Enabled(Some(true))), Drain::Disable);
    assert_eq!(d.next(DrainEvent::Enabled(Some(false))), Drain::Finished);
    let st = FenceState::default();
    assert_eq!(drain_fences(&st, 0), DrainVerdict::Quiet);
    let mut busy = FenceState::default();
    busy.process_fence(VirtioGpuRing::Global, 1, 0, 0, 0);
    assert!(matches!(drain_fences(&busy, 0), DrainVerdict::Wait(_)));
    assert_eq!(drain_fences(&busy, u64::MAX), DrainVerdict::TimedOut);
    assert!(!busy.outstanding_summary(5).is_empty());
}

fn display(width: u32, height: u32) -> DisplayInfo {
    DisplayInfo {
        width,
        height,
        position: (0, 0),
        edid: DisplayInfoEdid::Provided(vec![7u8; 4].into_boxed_slice()),
        connected: true,
    }
}

#[test]
fn display_updates_reach_the_guest_one_by_one() {
    let shm = VirtioShmRegion {
        host_addr: 0,
        guest_addr: 0,
        size: 0,
    };
    let mut gpu = VirtioGpu::new(false, vec![display(640, 480)], shm, 0, false);
    let mut pending: VecDeque<DisplayUpdate> = VecDeque::new();
    pending.push_back(DisplayUpdate {
        display_id: 0,
        size: Some((800, 600)),
        edid: None,
        connected: None,
    });
    pending.push_back(DisplayUpdate {
        display_id: 0,
        size: None,
        edid: None,
        connected: Some(false),
    });
    let mut events = 0u32;
    assert_eq!(
        take_display_update(&mut gpu, &mut pending, &mut events),
        (true, true)
    );
    assert_eq!(events, 1);
    assert_eq!(
        gpu.display_info(),
        Ok(GpuResponse::OkDisplayInfo(vec![(800, 600, true)]))
    );
    assert_eq!(
        take_display_update(&mut gpu, &mut pending, &mut events),
        (true, false)
    );
    assert!(!gpu.edid_of(0).unwrap().connected);
    assert!(gpu.edid_of(1).is_err());
    assert_eq!(
        take_display_update(&mut gpu, &mut pending, &mut events),
        (false, false)
    );
}
