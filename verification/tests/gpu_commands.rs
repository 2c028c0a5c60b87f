//! The GPU's commands, carried out against a renderer and a display that the tests play.
use devices::display::{DisplayInfo, DisplayInfoEdid};
use devices::gpu::command::{is_op_answerable, CtrlHdr, GpuCommand};
use devices::gpu::fence::{FenceState, RendererFence, VirtioGpuRing};
use devices::gpu::present::Rect;
use devices::gpu::protocol::{
    DisplayError, GpuResponse, RendererError, ResourceFormat, VirtioGpuResult,
    VIRTIO_GPU_FLAG_FENCE, VIRTIO_GPU_FLAG_INFO_RING_IDX,
};
use devices::gpu::queue::Entry;
use devices::gpu::replay::{
    restore_gpu_payload, ReplayAction, ReplayEvent, WireEntry, WireJournal, VKR_KLASS_RING_STREAM,
};
use devices::gpu::memory::{gathered, guest_reply, read_ranges};
use devices::gpu::step::{Bulk, Pending, Reply, Request, Stage, Step};
use devices::gpu::virtio_gpu::{
    FenceRoute, ResourceCreate3D, ResourceCreateBlob, ResourceQuery, Transfer3D, VirtioGpu,
    VirtioShmRegion,
};
use devices::gpu::worker::{IdleAction, InnerExit, Session, SessionEnd, WorkerCmd};
use devices::gpu_snapshot::{
    CursorSnapshot, GpuJournalEntry, GpuJournalOp, GpuSnapshotPayload, ScanoutFrame,
};
use std::collections::BTreeMap;
use vm_memory::{Bytes, GuestAddress, GuestMemoryMmap};

const RECT: Rect = Rect {
    x: 0,
    y: 0,
    width: 4,
    height: 2,
};

/// A host: guest memory, a renderer that does as it is told, and a display.
#[derive(Default)]
struct Host {
    memory: BTreeMap<u64, Vec<u8>>,
    /// The renderer refuses everything.
    refuse: bool,
    /// The display refuses what it is asked.
    display_refuses: bool,
    surface: Option<u64>,
    map_info: Option<u64>,
    log: Vec<Request>,
    frame: Vec<u8>,
    presented: Vec<(u32, Vec<u8>)>,
}

impl Host {
    fn rendered(&self) -> Reply {
        Reply::Renderer(if self.refuse {
            Err(RendererError::InvalidContextId)
        } else {
            Ok(())
        })
    }

    fn shown(&self) -> Reply {
        Reply::Display(if self.display_refuses {
            Err(DisplayError::MethodNotSupported)
        } else {
            Ok(())
        })
    }

    fn answer(&mut self, gpu: &VirtioGpu, p: &Pending) -> Reply {
        self.log.push(p.request);
        match p.request {
            Request::CheckGuest => Reply::Done(
                p.data
                    .ranges
                    .iter()
                    .all(|(a, n)| self.memory.get(a).is_some_and(|m| m.len() >= *n)),
            ),
            Request::ReadGuest => {
                let mut all = Vec::new();
                for (addr, len) in &p.data.ranges {
                    all.extend_from_slice(&self.memory[addr][..*len]);
                }
                Reply::Bytes(Ok(all))
            }
            Request::Edid { .. } => Reply::Bytes(Ok(vec![0xed; 128])),
            Request::Query { .. } => Reply::Query(Some(ResourceQuery {
                strides: [16, 0, 0, 0],
                offsets: [0; 4],
                modifier: 5,
            })),
            Request::CapsetInfo { .. } => Reply::CapsetInfo(if self.refuse {
                Err(RendererError::Unsupported)
            } else {
                Ok((4, 1, 160))
            }),
            Request::Capset { .. } => Reply::Bytes(Ok(vec![1, 2, 3])),
            Request::Surface { .. } => Reply::Number(self.surface),
            Request::JournalSeq { .. } => Reply::Number(Some(9)),
            Request::JournalUnpin { .. } => Reply::Done(true),
            Request::MapInfo { .. } => Reply::Number(self.map_info),
            Request::MapPtr { .. } => Reply::Number(Some(0x7000_0000)),
            Request::AddMapping { .. } | Request::RemoveMapping { .. } => Reply::Done(!self.refuse),
            Request::ConfigureScanout { .. }
            | Request::DisableScanout { .. }
            | Request::PresentSurface { .. }
            | Request::SetCursor { .. }
            | Request::MoveCursor { .. } => self.shown(),
            Request::AllocFrame { .. } => {
                self.frame = vec![0; 4 * 2 * 4];
                self.shown()
            }
            Request::FillFromSoftware {
                resource_id,
                src_w,
                scan_w,
                scan_h,
            } => {
                let mut f = std::mem::take(&mut self.frame);
                let ok = gpu.blit_frame(resource_id, src_w, scan_w, scan_h, &mut f);
                self.frame = f;
                Reply::Done(ok)
            }
            Request::FillFromSurface { .. } | Request::FillFromResource { .. } => {
                Reply::Done(!self.refuse)
            }
            Request::PresentFrame { scanout_id, .. } => {
                self.presented.push((scanout_id, self.frame.clone()));
                self.shown()
            }
            _ => self.rendered(),
        }
    }

    fn finish(&mut self, gpu: &mut VirtioGpu, mut step: Step) -> VirtioGpuResult {
        loop {
            match step {
                Step::Done(r) => return r,
                Step::Ask(p) => {
                    let reply = self.answer(gpu, &p);
                    step = gpu.resume_gpu_command(p.stage, p.data, reply);
                }
            }
        }
    }

    fn run(&mut self, gpu: &mut VirtioGpu, ctx_id: u32, cmd: GpuCommand, payload: &[u8]) -> VirtioGpuResult {
        assert!(cmd.is_answerable(payload) && gpu.room_left());
        let step = gpu.process_gpu_command(ctx_id, &cmd, payload, false);
        self.finish(gpu, step)
    }
}

fn display(width: u32, height: u32) -> DisplayInfo {
    DisplayInfo {
        width,
        height,
        position: (0, 0),
        edid: DisplayInfoEdid::Provided(vec![7u8; 4].into_boxed_slice()),
        connected: true,
    }
}

fn gpu(renderer: bool) -> VirtioGpu {
    let shm = VirtioShmRegion {
        host_addr: 0x1000_0000,
        guest_addr: 0x2000_0000,
        size: 0x10_0000,
    };
    VirtioGpu::new(renderer, vec![display(4, 2), display(8, 8)], shm, 0, true)
}

fn backing(entries: &[(u64, u32)]) -> Vec<u8> {
    let mut b = Vec::new();
    for (addr, len) in entries {
        b.extend_from_slice(&addr.to_le_bytes());
        b.extend_from_slice(&len.to_le_bytes());
        b.extend_from_slice(&[0; 4]);
    }
    b
}

const CREATE_2D: GpuCommand = GpuCommand::ResourceCreate2d {
    resource_id: 1,
    format: 67,
    width: 4,
    height: 2,
};

const OK: VirtioGpuResult = Ok(GpuResponse::OkNoData);

#[test]
fn a_software_picture_reaches_the_display() {
    let mut g = gpu(false);
    let mut h = Host::default();
    let picture: Vec<u8> = (0..32).collect();
    h.memory.insert(0x8000, picture[..20].to_vec());
    h.memory.insert(0x9000, picture[20..].to_vec());
    assert_eq!(h.run(&mut g, 0, CREATE_2D, &[]), OK);
    let attach = GpuCommand::ResourceAttachBacking {
        resource_id: 1,
        nr_entries: 2,
    };
    let entries = backing(&[(0x8000, 20), (0x9000, 12)]);
    assert_eq!(h.run(&mut g, 0, attach, &entries), OK);
    let scanout = GpuCommand::SetScanout {
        scanout_id: 0,
        resource_id: 1,
        width: 4,
        height: 2,
    };
    assert_eq!(h.run(&mut g, 0, scanout, &[]), OK);
    let transfer = GpuCommand::TransferToHost2d {
        resource_id: 1,
        rect: RECT,
    };
    assert_eq!(h.run(&mut g, 0, transfer, &[]), OK);
    let flush = GpuCommand::ResourceFlush {
        resource_id: 1,
        rect: RECT,
    };
    assert_eq!(h.run(&mut g, 0, flush, &[]), OK);
    assert_eq!(h.presented, vec![(0, picture)]);
    assert_eq!(g.sw2d_pixels(1).unwrap().len(), 32);
    // What is alive is in the journal.
    assert_eq!(g.journal().entries().len(), 3);
    let unref = GpuCommand::ResourceUnref { resource_id: 1 };
    let off = GpuCommand::SetScanout {
        scanout_id: 0,
        resource_id: 0,
        width: 0,
        height: 0,
    };
    assert_eq!(h.run(&mut g, 0, off, &[]), OK);
    assert_eq!(h.run(&mut g, 0, unref, &[]), OK);
    assert!(g.journal().entries().is_empty());
    assert!(g.resource(1).is_none() && !g.has_sw2d(1));
}

#[test]
fn a_resource_on_a_scanout_is_forgotten_with_an_error() {
    let mut g = gpu(false);
    let mut h = Host::default();
    h.run(&mut g, 0, CREATE_2D, &[]).unwrap();
    let scanout = GpuCommand::SetScanout {
        scanout_id: 0,
        resource_id: 1,
        width: 4,
        height: 2,
    };
    h.run(&mut g, 0, scanout, &[]).unwrap();
    let unref = GpuCommand::ResourceUnref { resource_id: 1 };
    assert_eq!(h.run(&mut g, 0, unref, &[]), Err(GpuResponse::ErrUnspec));
    assert_eq!(
        h.run(&mut g, 0, unref, &[]),
        Err(GpuResponse::ErrInvalidResourceId)
    );
}

#[test]
fn without_a_renderer_its_commands_are_refused() {
    let mut g = gpu(false);
    let mut h = Host::default();
    for cmd in [
        GpuCommand::CtxCreate {
            context_init: 4,
            debug_name: [0; 64],
        },
        GpuCommand::CtxDestroy,
        GpuCommand::CtxAttachResource { resource_id: 1 },
        GpuCommand::GetCapsetInfo { capset_index: 0 },
    ] {
        assert_eq!(h.run(&mut g, 1, cmd, &[]), Err(GpuResponse::ErrUnspec));
    }
    assert!(h.log.is_empty());
    assert!(g.journal().entries().is_empty());
}

#[test]
fn unknown_things_are_refused_by_name() {
    let mut g = gpu(false);
    let mut h = Host::default();
    let bad_format = GpuCommand::ResourceCreate2d {
        resource_id: 1,
        format: 5,
        width: 4,
        height: 2,
    };
    assert_eq!(
        h.run(&mut g, 0, bad_format, &[]),
        Err(GpuResponse::ErrUnspec)
    );
    let scanout = |scanout_id, resource_id| GpuCommand::SetScanout {
        scanout_id,
        resource_id,
        width: 4,
        height: 2,
    };
    assert_eq!(
        h.run(&mut g, 0, scanout(0, 9), &[]),
        Err(GpuResponse::ErrInvalidResourceId)
    );
    assert_eq!(
        h.run(&mut g, 0, scanout(16, 0), &[]),
        Err(GpuResponse::ErrInvalidScanoutId)
    );
    assert_eq!(
        h.run(&mut g, 0, GpuCommand::GetEdid { scanout: 2 }, &[]),
        Err(GpuResponse::ErrInvalidScanoutId)
    );
    assert_eq!(
        h.run(&mut g, 0, GpuCommand::ResourceUnref { resource_id: 9 }, &[]),
        Err(GpuResponse::ErrInvalidResourceId)
    );
    // A backing that is cut short.
    assert_eq!(h.run(&mut g, 0, CREATE_2D, &[]), OK);
    let attach = GpuCommand::ResourceAttachBacking {
        resource_id: 1,
        nr_entries: 2,
    };
    assert!(h.run(&mut g, 0, attach, &backing(&[(0x8000, 4)])).is_err());
    // A guest's own handle to a blob is not supported, and a picture has to fit.
    let blob = GpuCommand::ResourceCreateBlob {
        resource_id: 2,
        create: ResourceCreateBlob {
            blob_mem: 2,
            blob_flags: 8,
            blob_id: 0,
            size: 16,
        },
        nr_entries: 0,
    };
    assert!(!blob.is_answerable(&[]));
    let huge = GpuCommand::ResourceCreate2d {
        resource_id: 2,
        format: 67,
        width: u32::MAX,
        height: u32::MAX,
    };
    assert!(huge.is_answerable(&[]));
    assert!(h.run(&mut g, 0, huge, &[]).is_err());
}

#[test]
fn displays_describe_themselves() {
    let mut g = gpu(false);
    let mut h = Host::default();
    assert_eq!(
        h.run(&mut g, 0, GpuCommand::GetDisplayInfo, &[]),
        Ok(GpuResponse::OkDisplayInfo(vec![(4, 2, true), (8, 8, true)]))
    );
    assert_eq!(
        h.run(&mut g, 0, GpuCommand::GetEdid { scanout: 1 }, &[]),
        Ok(GpuResponse::OkEdid(vec![0xed; 128]))
    );
    h.run(&mut g, 0, CREATE_2D, &[]).unwrap();
    let uuid = h
        .run(&mut g, 0, GpuCommand::ResourceAssignUuid { resource_id: 1 }, &[])
        .unwrap();
    let mut expected = [0u8; 16];
    expected[15] = 1;
    assert_eq!(uuid, GpuResponse::OkResourceUuid { uuid: expected });
}

#[test]
fn a_renderers_refusal_is_the_answer_and_is_not_journaled() {
    let mut g = gpu(true);
    let mut h = Host {
        refuse: true,
        ..Default::default()
    };
    let create = GpuCommand::CtxCreate {
        context_init: 4,
        debug_name: [b'a'; 64],
    };
    assert_eq!(
        h.run(&mut g, 7, create, &[]),
        Err(GpuResponse::ErrRutabaga(RendererError::InvalidContextId))
    );
    assert!(g.journal().entries().is_empty());
    h.refuse = false;
    assert_eq!(h.run(&mut g, 7, create, &[]), OK);
    match &g.journal().entries()[0].op {
        GpuJournalOp::CtxCreate { ctx_id, name, .. } => {
            assert_eq!(*ctx_id, 7);
            assert_eq!(name.as_deref(), Some("a".repeat(64).as_str()));
        }
        other => panic!("{other:?}"),
    }
    // A name that is not text is left out.
    let unnamed = GpuCommand::CtxCreate {
        context_init: 4,
        debug_name: [0xff; 64],
    };
    h.run(&mut g, 8, unnamed, &[]).unwrap();
    assert!(matches!(
        g.journal().entries()[1].op,
        GpuJournalOp::CtxCreate { name: None, .. }
    ));
}

const BLOB: GpuCommand = GpuCommand::ResourceCreateBlob {
    resource_id: 5,
    create: ResourceCreateBlob {
        blob_mem: 2,
        blob_flags: 1,
        blob_id: 77,
        size: 0x2000,
    },
    nr_entries: 0,
};

#[test]
fn a_blob_is_mapped_into_the_guests_window() {
    let mut g = gpu(true);
    let mut h = Host {
        map_info: Some(0x31),
        ..Default::default()
    };
    assert!(h.run(&mut g, 3, BLOB, &[]).is_ok());
    let map = |offset| GpuCommand::ResourceMapBlob {
        resource_id: 5,
        offset,
    };
    // Past the window's end.
    assert!(h.run(&mut g, 3, map(0x10_0000), &[]).is_err());
    assert_eq!(
        h.run(&mut g, 3, map(0x1000), &[]),
        Ok(GpuResponse::OkMapInfo { map_info: 1 })
    );
    assert!(h.log.contains(&Request::AddMapping {
        host_addr: 0x7000_0000,
        guest_addr: 0x2000_1000,
        size: 0x2000
    }));
    assert_eq!(g.mapping(5), Ok((0x2000_1000, 0x2000)));
    let unmap = GpuCommand::ResourceUnmapBlob { resource_id: 5 };
    assert_eq!(h.run(&mut g, 3, unmap, &[]), OK);
    assert!(g.mapping(5).is_err());
    // The blob's journal entry knows how far the renderer's own journal was.
    assert_eq!(g.journal().entries().len(), 1);
    assert_eq!(g.journal().entries()[0].vkr_seq, 9);
    let unref = GpuCommand::ResourceUnref { resource_id: 5 };
    assert_eq!(h.run(&mut g, 3, unref, &[]), OK);
    assert!(h.log.contains(&Request::JournalUnpin {
        ctx_id: 3,
        blob_id: 77
    }));
}

#[test]
fn a_blob_on_a_scanout_is_presented_as_a_surface() {
    let mut g = gpu(true);
    let mut h = Host {
        surface: Some(40),
        ..Default::default()
    };
    h.run(&mut g, 3, BLOB, &[]).unwrap();
    let scanout = GpuCommand::SetScanoutBlob {
        scanout_id: 1,
        resource_id: 5,
        width: 8,
        height: 8,
        format: 67,
    };
    assert_eq!(h.run(&mut g, 3, scanout, &[]), OK);
    assert_eq!(g.scanout(1).unwrap().iosurface_id, Some(40));
    let flush = GpuCommand::ResourceFlush {
        resource_id: 5,
        rect: RECT,
    };
    assert_eq!(h.run(&mut g, 3, flush, &[]), OK);
    assert!(h.log.contains(&Request::PresentSurface {
        scanout_id: 1,
        iosurface_id: 40,
        rect: RECT
    }));
    // A display that takes no surfaces is asked for a frame.
    h.display_refuses = true;
    assert_eq!(
        h.run(&mut g, 3, flush, &[]),
        Err(GpuResponse::ErrDisplay(DisplayError::MethodNotSupported))
    );
    assert!(h.log.contains(&Request::AllocFrame { scanout_id: 1 }));
    // Taking the scanout off the resource disables it.
    h.display_refuses = false;
    let off = GpuCommand::SetScanoutBlob {
        scanout_id: 1,
        resource_id: 0,
        width: 0,
        height: 0,
        format: 0,
    };
    assert_eq!(h.run(&mut g, 3, off, &[]), OK);
    assert!(g.scanout(1).is_none());
    assert!(h.log.contains(&Request::DisableScanout { scanout_id: 1 }));
}

#[test]
fn the_cursor_is_set_moved_and_hidden() {
    let mut g = gpu(false);
    let mut h = Host::default();
    h.run(&mut g, 0, CREATE_2D, &[]).unwrap();
    let update = |resource_id| GpuCommand::UpdateCursor {
        scanout_id: 0,
        resource_id,
        hot_x: 1,
        hot_y: 2,
        x: 30,
        y: 40,
    };
    assert_eq!(h.run(&mut g, 0, update(1), &[]), OK);
    // The padding byte of a cursor is alpha.
    assert!(h.log.contains(&Request::SetCursor {
        width: 4,
        height: 2,
        hot_x: 1,
        hot_y: 2,
        format: ResourceFormat::RGBA
    }));
    assert_eq!(h.run(&mut g, 0, GpuCommand::MoveCursor { x: 5, y: 6 }, &[]), OK);
    let c = g.cursor().as_ref().unwrap();
    assert_eq!((c.x, c.y, c.hot_x, c.hot_y), (5, 6, 1, 2));
    assert_eq!(h.run(&mut g, 0, update(0), &[]), OK);
    assert!(g.cursor().is_none());
    let mut fresh = gpu(true);
    assert_eq!(
        fresh.restore_cursor(CursorSnapshot {
            scanout_id: 0,
            width: 1,
            height: 1,
            hot_x: 0,
            hot_y: 0,
            format: 2,
            x: 0,
            y: 0,
            pixels: vec![0; 4],
        }),
        Some(ResourceFormat::BGRX)
    );
}

#[test]
fn three_dimensional_resources_are_the_renderers() {
    let mut g = gpu(true);
    let mut h = Host::default();
    let create = ResourceCreate3D {
        target: 2,
        format: 67,
        bind: 2,
        width: 16,
        height: 16,
        depth: 1,
        array_size: 1,
        last_level: 0,
        nr_samples: 0,
        flags: 0,
    };
    let made = h
        .run(
            &mut g,
            1,
            GpuCommand::ResourceCreate3d {
                resource_id: 6,
                create,
            },
            &[],
        )
        .unwrap();
    match made {
        GpuResponse::OkResourcePlaneInfo {
            format_modifier,
            plane_info,
        } => {
            assert_eq!(format_modifier, 5);
            assert_eq!(plane_info[0].stride, 16);
        }
        other => panic!("{other:?}"),
    }
    let transfer = Transfer3D {
        x: 0,
        y: 0,
        z: 0,
        w: 1,
        h: 1,
        d: 1,
        level: 0,
        stride: 0,
        layer_stride: 0,
        offset: 0,
    };
    let read = GpuCommand::TransferFromHost3d {
        resource_id: 6,
        transfer,
    };
    assert_eq!(h.run(&mut g, 1, read, &[]), OK);
    assert!(h.log.contains(&Request::TransferRead {
        ctx_id: 1,
        resource_id: 6,
        transfer
    }));
    assert_eq!(
        h.run(&mut g, 1, GpuCommand::GetCapsetInfo { capset_index: 0 }, &[]),
        Ok(GpuResponse::OkCapsetInfo {
            capset_id: 4,
            version: 1,
            size: 160
        })
    );
    let submit = GpuCommand::CmdSubmit3d {
        size: 4,
        num_in_fences: 1,
    };
    let mut payload = 11u64.to_le_bytes().to_vec();
    payload.extend_from_slice(&[1, 2, 3, 4]);
    assert_eq!(h.run(&mut g, 1, submit, &payload), OK);
    assert_eq!(g.trace().submits, 1);
    assert!(h.run(&mut g, 1, submit, &payload[..10]).is_err());
}

fn entry(index: u16, flags: u32, fence_id: u64, is_flush: bool) -> Entry {
    Entry {
        index,
        writable: true,
        hdr: Some(CtrlHdr {
            type_: 0x0104,
            flags,
            fence_id,
            ctx_id: 0,
            ring_idx: 0,
        }),
        is_flush,
    }
}

#[test]
fn a_descriptor_goes_back_at_once_or_with_its_fence() {
    let mut g = gpu(true);
    let mut st = FenceState::default();
    // Without a fence it goes back at once.
    let plain = entry(1, 0, 0, false);
    let a = g.command_done(&mut st, &plain, Some(OK), 0);
    assert_eq!((a.response, a.route), (GpuResponse::OkNoData, None));
    assert_eq!(g.entry_done(&mut st, &plain, 24, 0), Some((1, 24)));
    // Until a context draws with GL, a fence of the device is complete when it is made.
    let early = entry(2, VIRTIO_GPU_FLAG_FENCE, 1, false);
    let a = g.command_done(&mut st, &early, Some(OK), 0);
    assert_eq!(a.route, Some(FenceRoute::Sync));
    assert_eq!(g.entry_done(&mut st, &early, 24, 0), Some((2, 24)));
    // From then on it waits for the renderer.
    g.context_created(2);
    let fenced = entry(2, VIRTIO_GPU_FLAG_FENCE, 8, false);
    let a = g.command_done(&mut st, &fenced, Some(OK), 0);
    assert_eq!(a.route, Some(FenceRoute::RendererOrSync));
    let fence = fenced.fence().unwrap();
    let response = VirtioGpu::fence_created(&mut st, a, &fence, Ok(()));
    assert_eq!(response, GpuResponse::OkNoData);
    assert_eq!(g.entry_done(&mut st, &fenced, 24, 0), None);
    assert_eq!(st.complete(&fence), vec![(2, 24)]);
    // A context's fence that could not be made is the answer.
    let flags = VIRTIO_GPU_FLAG_FENCE | VIRTIO_GPU_FLAG_INFO_RING_IDX;
    let a = g.command_done(&mut st, &entry(3, flags, 9, false), Some(OK), 0);
    assert_eq!(a.route, Some(FenceRoute::Renderer));
    assert_eq!(
        VirtioGpu::fence_created(&mut st, a, &fence, Err(RendererError::Other)),
        GpuResponse::ErrRutabaga(RendererError::Other)
    );
    // A command that could not be read is refused, and counted.
    let unread = Entry {
        hdr: None,
        ..plain
    };
    let a = g.command_done(&mut st, &unread, None, 0);
    assert_eq!(a.response, GpuResponse::ErrUnspec);
    assert_eq!(g.trace().errors_other, 1);
    assert_eq!(VirtioGpu::cursor_entry_done(5), (5, 0));
}

#[test]
fn a_software_fence_is_complete_when_it_is_made() {
    let mut g = gpu(false);
    let mut st = FenceState::default();
    let e = entry(4, VIRTIO_GPU_FLAG_FENCE, 3, false);
    let a = g.command_done(&mut st, &e, Some(OK), 0);
    assert_eq!(a.route, Some(FenceRoute::Sync));
    assert_eq!(st.completed(&VirtioGpuRing::Global), 3);
    assert_eq!(g.entry_done(&mut st, &e, 24, 0), Some((4, 24)));
}

#[test]
fn a_session_outlives_a_suspend_and_not_a_reset() {
    let mut g = gpu(false);
    let mut h = Host::default();
    let mut st = FenceState::default();
    let mut s = Session::new();
    h.run(&mut g, 0, CREATE_2D, &[]).unwrap();
    // The guest's driver went quiet first: the session is kept for a thaw.
    let end = s.activation_ended(&mut g, &mut st, InnerExit::Deactivate, false);
    assert!(matches!(end, SessionEnd::Parked { .. }));
    assert_eq!(
        s.idle_command(&mut g, &mut st, Some(WorkerCmd::Activate { thaw: true })),
        IdleAction::Bind
    );
    assert!(g.resource(1).is_some());
    s.activation_ended(&mut g, &mut st, InnerExit::Deactivate, false);
    assert_eq!(
        s.idle_command(&mut g, &mut st, Some(WorkerCmd::Activate { thaw: false })),
        IdleAction::Bind
    );
    assert!(g.resource(1).is_none());
    assert_eq!(s.idle_command(&mut g, &mut st, None), IdleAction::Exit);
    assert_eq!(
        s.activation_ended(&mut g, &mut st, InnerExit::Shutdown, false),
        SessionEnd::Wiped
    );
}

#[test]
fn a_snapshot_holds_the_journal_and_is_replayed_in_order() {
    let mut g = gpu(true);
    let mut h = Host::default();
    assert!(g.snapshot_gpu_payload().is_none());
    let create = GpuCommand::CtxCreate {
        context_init: 4,
        debug_name: [b'x'; 64],
    };
    h.run(&mut g, 3, create, &[]).unwrap();
    h.run(&mut g, 3, BLOB, &[]).unwrap();
    let mut capture = g.snapshot_gpu_payload().unwrap();
    assert_eq!(capture.contexts, vec![3]);
    capture.add_context(3, Some(vec![1, 2]), None, None, Some(vec![7, 7]));
    capture.add_context(4, None, None, None, Some(vec![8]));
    capture.add_blob(5, Some(vec![9; 4]));
    capture.add_blob(6, None);
    // No scanout shows anything yet; a frame that could not be read is left out.
    assert!(capture.scanouts.is_empty());
    capture.add_frame(None);
    capture.add_frame(Some(ScanoutFrame {
        scanout_id: 0,
        width: 1,
        height: 1,
        pixels: vec![1, 2, 3, 4],
    }));
    let bytes = capture.payload.to_bytes();
    let mut payload = GpuSnapshotPayload::from_bytes(&bytes).unwrap();
    assert_eq!(payload.blob_contents, vec![(5, vec![9; 4])]);
    // A context without a wire journal has nothing to restore.
    assert_eq!(payload.classic_contents, vec![(3, vec![7, 7])]);
    assert_eq!(payload.scanout_frames.len(), 1);

    let wire = |seq| WireEntry {
        seq,
        klass: 1,
        ring_key: 0,
    };
    let wires = vec![WireJournal {
        ctx_id: 3,
        entries: vec![wire(4), wire(9), wire(12)],
    }];
    let mut r = restore_gpu_payload(&mut payload, wires);
    let mut fresh = gpu(true);
    let saved = fresh.begin_replay();
    let mut order = Vec::new();
    let ok = loop {
        let action = r.action();
        let event = match action {
            ReplayAction::Finish { ok } => break ok,
            ReplayAction::RunOp { op } => {
                let entry: &GpuJournalEntry = &r.ops()[op];
                assert!(is_op_answerable(&entry.op));
                let step = fresh.replay_op(&entry.op);
                order.push(format!("op {op}"));
                ReplayEvent::Done(h.finish(&mut fresh, step).is_ok())
            }
            ReplayAction::Feed { entry, .. } => {
                order.push(format!("wire {entry}"));
                ReplayEvent::Done(true)
            }
            ReplayAction::AskSeq { .. } => ReplayEvent::Number(9),
            ReplayAction::UploadClassic { content } => {
                order.push(format!("classic {content}"));
                ReplayEvent::Done(false)
            }
            ReplayAction::EndContext { ctx_id } => {
                order.push(format!("end {ctx_id}"));
                ReplayEvent::Done(true)
            }
            ReplayAction::PresentFrame { frame } => {
                order.push(format!("frame {frame}"));
                ReplayEvent::Done(true)
            }
            _ => ReplayEvent::Done(true),
        };
        r.advance(event);
    };
    assert!(ok);
    // The blob waits for what its context did before it; the rest of the wire follows.
    let place = |what: &str| order.iter().position(|o| o == what).unwrap();
    assert!(place("op 0") < place("wire 0"));
    assert!(place("wire 1") < place("op 1"));
    assert!(place("op 1") < place("wire 2"));
    // What only the GL renderer held follows the wire, and the frames come last.
    assert!(place("wire 2") < place("classic 0"));
    assert!(place("classic 0") < place("end 3"));
    assert_eq!(order.last().unwrap(), "frame 0");
    assert_eq!((r.tally().op_failed, r.tally().content_failed), (0, 1));
    fresh.end_replay(saved, Some(r.into_ops()));
    assert_eq!(fresh.journal().entries().len(), 2);
    assert!(fresh.resource(5).is_some());
}

#[test]
fn the_displays_in_force_come_back_with_a_snapshot() {
    let mut g = gpu(true);
    let mut h = Host::default();
    let create = GpuCommand::CtxCreate {
        context_init: 4,
        debug_name: [b'x'; 64],
    };
    h.run(&mut g, 3, create, &[]).unwrap();
    g.set_display_size(0, 3456, 2234);
    g.set_display_connected(0, false);
    let bytes = g.snapshot_gpu_payload().unwrap().payload.to_bytes();
    let mut payload = GpuSnapshotPayload::from_bytes(&bytes).unwrap();
    let mut fresh = gpu(true);
    assert_ne!(fresh.displays(), g.displays());
    fresh.restore_displays(std::mem::take(&mut payload.displays));
    assert_eq!(fresh.displays(), g.displays());
    assert_eq!(fresh.displays()[0].width, 3456);
    assert!(matches!(
        h.run(&mut fresh, 0, GpuCommand::GetDisplayInfo, &[]),
        Ok(GpuResponse::OkDisplayInfo(d)) if d[0] == (3456, 2234, true)
    ));
    // An EDID that was handed in is copied too.
    fresh.restore_displays(vec![DisplayInfo {
        width: 1,
        height: 2,
        position: (3, 4),
        edid: DisplayInfoEdid::Provided(vec![5u8, 6].into_boxed_slice()),
        connected: true,
    }]);
    assert_eq!(fresh.displays()[0].copied(), fresh.displays()[0]);
}

#[test]
fn a_snapshot_asks_for_the_frames_of_the_scanouts_that_show_something() {
    let mut g = gpu(true);
    let mut h = Host::default();
    h.run(&mut g, 0, CREATE_2D, &[]).unwrap();
    assert!(g.snapshot_gpu_payload().unwrap().scanouts.is_empty());
    let show = GpuCommand::SetScanout {
        scanout_id: 0,
        resource_id: 1,
        width: 4,
        height: 2,
    };
    h.run(&mut g, 0, show, &[]).unwrap();
    assert_eq!(g.snapshot_gpu_payload().unwrap().scanouts, vec![0]);
}

#[test]
fn a_command_refused_on_its_way_is_not_journaled() {
    let mut g = gpu(true);
    let mut h = Host::default();
    h.run(&mut g, 3, BLOB, &[]).unwrap();
    let before = g.journal().entries().len();
    assert!(before > 0);
    // The renderer is asked for the mapping, and then the hypervisor refuses it.
    h.map_info = Some(1);
    h.refuse = true;
    let map = GpuCommand::ResourceMapBlob {
        resource_id: 5,
        offset: 0,
    };
    assert!(h.run(&mut g, 3, map, &[]).is_err());
    assert!(h
        .log
        .iter()
        .any(|r| matches!(r, Request::AddMapping { .. })));
    assert_eq!(g.journal().entries().len(), before);
}

#[test]
fn a_failed_context_ends_a_replay() {
    let mut payload = GpuSnapshotPayload {
        ops: vec![GpuJournalEntry {
            seq: 1,
            vkr_seq: 0,
            op: GpuJournalOp::CtxCreate {
                ctx_id: 1,
                context_init: 4,
                name: None,
            },
        }],
        ..Default::default()
    };
    let mut r = restore_gpu_payload(&mut payload, Vec::new());
    assert!(matches!(r.action(), ReplayAction::RunOp { op: 0 }));
    r.advance(ReplayEvent::Done(false));
    assert!(matches!(r.action(), ReplayAction::Finish { ok: false }));
    let ring = WireEntry {
        seq: 1,
        klass: VKR_KLASS_RING_STREAM,
        ring_key: 3,
    };
    assert!(ring.load_bearing());
    assert!(!WireEntry { klass: 1, ..ring }.load_bearing());
    assert!(RendererFence {
        flags: 0,
        fence_id: 0,
        ctx_id: 0,
        ring_idx: 0
    }
    .ring()
        == VirtioGpuRing::Global);
}

#[test]
fn guest_memory_answers_for_a_backing() {
    let mem = GuestMemoryMmap::from_ranges(&[
        (GuestAddress(0x1000), 0x1000),
        (GuestAddress(0x2000), 0x1000),
    ])
    .unwrap();
    mem.write_slice(&[1, 2, 3, 4], GuestAddress(0x1ffe)).unwrap();
    let asked = |request, ranges: Vec<(u64, usize)>| Pending {
        request,
        stage: Stage::Settled,
        data: Bulk::of_ranges(ranges),
    };
    let check = |ranges| guest_reply(&mem, &asked(Request::CheckGuest, ranges));
    assert!(matches!(check(vec![(0x1000, 16), (0x2000, 0x1000)]), Some(Reply::Done(true))));
    assert!(matches!(check(vec![(0x1ffe, 4)]), Some(Reply::Done(false))));
    match guest_reply(&mem, &asked(Request::ReadGuest, vec![(0x2000, 2), (0x1ffe, 2)])) {
        Some(Reply::Bytes(Ok(b))) => assert_eq!(b, vec![3, 4, 1, 2]),
        _ => panic!("the ranges can be read"),
    }
    assert!(matches!(
        guest_reply(&mem, &asked(Request::ReadGuest, vec![(0x2ffe, 4)])),
        Some(Reply::Bytes(Err(RendererError::Other)))
    ));
    assert!(guest_reply(&mem, &asked(Request::Unref { resource_id: 1 }, vec![])).is_none());
    assert_eq!(read_ranges(&mem, &vec![(0x1ffe, 4)]), Some(vec![1, 2, 3, 4]));
    assert_eq!(
        read_ranges(&mem, &vec![(0x2000, 2), (0x1ffe, 2)]),
        Some(vec![3, 4, 1, 2])
    );
    assert_eq!(
        gathered(&vec![vec![5, 6], vec![], vec![7]]),
        vec![5, 6, 7]
    );
    assert_eq!(read_ranges(&mem, &vec![(0x3000, 0)]), None);
}
