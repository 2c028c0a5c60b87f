//! The GPU's snapshot payload: what is written is read back, and nothing else is read.
use devices::codec::{put_blob, put_u16, put_u32, put_u64, put_u8, Cursor};
use devices::display::{
    DetailedMode, DisplayInfo, DisplayInfoEdid, EdidIdentity, EdidParams, PhysicalSize,
    RefreshRange, StandardTiming,
};
use devices::gpu_snapshot::{
    CursorSnapshot, GpuJournalEntry, GpuJournalOp, GpuSnapshotPayload, ScanoutFrame, PAYLOAD_MAGIC,
    PAYLOAD_VERSION,
};

#[test]
fn gpu_snapshot_payload_round_trips() {
    let payload = GpuSnapshotPayload {
        ops: vec![
            GpuJournalEntry {
                seq: 1,
                vkr_seq: 0,
                op: GpuJournalOp::CtxCreate {
                    ctx_id: 3,
                    context_init: 0x2,
                    name: Some("gnome-shell".into()),
                },
            },
            GpuJournalEntry {
                seq: 2,
                vkr_seq: 41,
                op: GpuJournalOp::CreateBlob {
                    ctx_id: 3,
                    resource_id: 7,
                    blob_mem: 3,
                    blob_flags: 0x3,
                    blob_id: 12,
                    size: 0x10000,
                    backing: vec![(0x4000_0000, 0x8000), (0x5000_0000, 0x8000)],
                },
            },
            GpuJournalEntry {
                seq: 3,
                vkr_seq: 41,
                op: GpuJournalOp::MapBlob {
                    resource_id: 7,
                    offset: 0x2_0000,
                },
            },
            GpuJournalEntry {
                seq: 4,
                vkr_seq: 41,
                op: GpuJournalOp::CtxAttachResource {
                    ctx_id: 3,
                    resource_id: 7,
                    detached: false,
                },
            },
            GpuJournalEntry {
                seq: 6,
                vkr_seq: 41,
                op: GpuJournalOp::CtxAttachResource {
                    ctx_id: 4,
                    resource_id: 7,
                    detached: true,
                },
            },
            GpuJournalEntry {
                seq: 5,
                vkr_seq: 44,
                op: GpuJournalOp::SetScanoutBlob {
                    scanout_id: 0,
                    resource_id: 7,
                    width: 1280,
                    height: 800,
                    format: 67,
                },
            },
        ],
        vkr_journals: vec![(3, vec![0xaa; 24])],
        blob_contents: vec![(7, vec![0x5a; 64])],
        memory_contents: vec![(3, 21, vec![0xc3; 48])],
        sync_states: vec![(3, vec![0x11; 16])],
        cursor: Some(CursorSnapshot {
            scanout_id: 0,
            width: 64,
            height: 64,
            hot_x: 4,
            hot_y: 6,
            format: 2,
            x: 800,
            y: 450,
            pixels: vec![0x7e; 64 * 64 * 4],
        }),
        classic_contents: vec![(9, vec![0x42; 32])],
        scanout_frames: vec![ScanoutFrame {
            scanout_id: 1,
            width: 3,
            height: 2,
            pixels: (0..24u8).collect(),
        }],
        displays: vec![
            DisplayInfo {
                width: 2560,
                height: 1440,
                position: (100, 200),
                edid: DisplayInfoEdid::Generated(EdidParams {
                    refresh_rate: 120,
                    physical_size: PhysicalSize::DimensionsMillimeters(600, 340),
                    identity: Some(EdidIdentity {
                        manufacturer: *b"LMN",
                        product_id: 0x1234,
                        serial: 0xdead_beef,
                        product_name: *b"BenQ LCD\n    ",
                        serial_string: Some(*b"SN0123456789\n"),
                    }),
                    range: Some(RefreshRange {
                        min_vertical_hz: 48,
                        max_vertical_hz: 120,
                        min_horizontal_khz: 30,
                        max_horizontal_khz: 300,
                        max_pixel_clock_mhz: 650,
                    }),
                    standard_timings: Some([
                        Some(StandardTiming {
                            width: 1920,
                            height: 1080,
                            refresh_hz: 60,
                        }),
                        None,
                        None,
                        None,
                        None,
                        None,
                        None,
                        Some(StandardTiming {
                            width: 1280,
                            height: 720,
                            refresh_hz: 75,
                        }),
                    ]),
                    alt_mode: Some(DetailedMode {
                        width: 2560,
                        height: 1440,
                        refresh_hz: 60,
                    }),
                }),
                connected: true,
            },
            DisplayInfo {
                width: 800,
                height: 600,
                position: (0, 0),
                edid: DisplayInfoEdid::Provided(vec![0x9c; 128].into_boxed_slice()),
                connected: false,
            },
        ],
    };
    let bytes = payload.to_bytes();
    let got = GpuSnapshotPayload::from_bytes(&bytes).expect("parse");
    assert_eq!(got.ops.len(), 6);
    assert_eq!(got.ops[1].vkr_seq, 41);
    let attaches: Vec<(u32, bool)> = got
        .ops
        .iter()
        .filter_map(|e| match e.op {
            GpuJournalOp::CtxAttachResource {
                ctx_id, detached, ..
            } => Some((ctx_id, detached)),
            _ => None,
        })
        .collect();
    assert_eq!(attaches, vec![(3, false), (4, true)]);
    match &got.ops[1].op {
        GpuJournalOp::CreateBlob {
            resource_id,
            blob_id,
            backing,
            ..
        } => {
            assert_eq!(*resource_id, 7);
            assert_eq!(*blob_id, 12);
            assert_eq!(backing, &vec![(0x4000_0000, 0x8000), (0x5000_0000, 0x8000)]);
        }
        other => panic!("wrong op: {other:?}"),
    }
    match &got.ops[0].op {
        GpuJournalOp::CtxCreate { name, .. } => {
            assert_eq!(name.as_deref(), Some("gnome-shell"))
        }
        other => panic!("wrong op: {other:?}"),
    }
    assert_eq!(got.vkr_journals, vec![(3, vec![0xaa; 24])]);
    assert_eq!(got.blob_contents, vec![(7, vec![0x5a; 64])]);
    assert_eq!(got.memory_contents, vec![(3, 21, vec![0xc3; 48])]);
    assert_eq!(got.sync_states, vec![(3, vec![0x11; 16])]);
    let cur = got.cursor.expect("cursor state present");
    assert_eq!(
        (cur.width, cur.height, cur.hot_x, cur.hot_y),
        (64, 64, 4, 6)
    );
    assert_eq!((cur.format, cur.x, cur.y), (2, 800, 450));
    assert_eq!(cur.pixels, vec![0x7e; 64 * 64 * 4]);
    assert_eq!(got.classic_contents, vec![(9, vec![0x42; 32])]);
    // The pixels are the only copy of the screen, so none may be lost.
    assert_eq!(got.scanout_frames, payload.scanout_frames);

    assert_eq!(got.displays.len(), 2);
    let d0 = &got.displays[0];
    assert_eq!(
        (d0.width, d0.height, d0.position, d0.connected),
        (2560, 1440, (100, 200), true)
    );
    let DisplayInfoEdid::Generated(p0) = &d0.edid else {
        panic!("display 0 lost its generated EDID params")
    };
    let DisplayInfoEdid::Generated(want) = &payload.displays[0].edid else {
        unreachable!()
    };
    assert_eq!(p0, want);
    let d1 = &got.displays[1];
    assert_eq!((d1.width, d1.height, d1.connected), (800, 600, false));
    let DisplayInfoEdid::Provided(bytes) = &d1.edid else {
        panic!("display 1 lost its provided EDID blob")
    };
    assert_eq!(&bytes[..], &[0x9c; 128][..]);
}

/// A backing count past what the payload holds is refused before it sizes anything, and a
/// length that would run the reader past the end of the address space is refused, not added.
#[test]
fn gpu_snapshot_payload_refuses_counts_and_lengths_past_its_end() {
    let mut bytes = Vec::new();
    put_u32(&mut bytes, PAYLOAD_MAGIC);
    put_u32(&mut bytes, PAYLOAD_VERSION);
    put_u32(&mut bytes, 1); // one op
    put_u64(&mut bytes, 0);
    bytes.push(8); // AttachBacking
    put_u32(&mut bytes, 1);
    put_u32(&mut bytes, u32::MAX); // backing entries
    put_u64(&mut bytes, 0x1000);
    put_u64(&mut bytes, 0x1000);
    let mut c = Cursor {
        data: &bytes,
        pos: bytes.len() - 20,
    };
    assert_eq!(c.count(16), None, "u32::MAX entries in 16 bytes");
    assert!(GpuSnapshotPayload::from_bytes(&bytes).is_none());

    let mut c = Cursor {
        data: &bytes,
        pos: 1,
    };
    assert_eq!(c.take(usize::MAX), None);
}

#[test]
fn gpu_snapshot_payload_rejects_garbage() {
    assert!(GpuSnapshotPayload::from_bytes(b"not a payload").is_none());
    // A payload that was cut short is refused.
    let bytes = GpuSnapshotPayload {
        ops: vec![GpuJournalEntry {
            seq: 1,
            vkr_seq: 0,
            op: GpuJournalOp::MapBlob {
                resource_id: 1,
                offset: 0,
            },
        }],
        ..Default::default()
    }
    .to_bytes();
    assert!(GpuSnapshotPayload::from_bytes(&bytes[..bytes.len() - 3]).is_none());
}

#[test]
fn a_refused_count_tag_or_length_was_read() {
    let at = |data: &'static [u8]| Cursor { data, pos: 0 };
    let mut c = at(&[1, 2, 3]);
    assert_eq!((c.count(16), c.pos), (None, 0));
    let mut c = at(&[255, 255, 255, 255, 0]);
    assert_eq!((c.count(16), c.pos), (None, 4));
    let mut c = at(&[1, 0, 0, 0, 9, 9]);
    assert_eq!((c.count(2), c.pos), (Some(1), 4));
    let mut c = at(&[]);
    assert_eq!((c.opt(), c.pos), (None, 0));
    let mut c = at(&[2]);
    assert_eq!((c.opt(), c.pos), (None, 1));
    let mut c = at(&[1]);
    assert_eq!((c.opt(), c.pos), (Some(true), 1));
    let mut c = at(&[9, 0, 0, 0]);
    assert_eq!((c.blob(), c.pos), (None, 0));
    let mut c = at(&[2, 0, 0, 0, 0, 0, 0, 0, 7]);
    assert_eq!((c.blob(), c.pos), (None, 8));
    let mut c = at(&[1, 0, 0, 0, 0, 0, 0, 0, 7]);
    assert_eq!((c.blob(), c.pos), (Some(vec![7]), 9));
}

/// A payload with nothing in it but a cursor section.
fn with_cursor(section: &[u8]) -> Vec<u8> {
    let mut bytes = Vec::new();
    put_u32(&mut bytes, PAYLOAD_MAGIC);
    put_u32(&mut bytes, PAYLOAD_VERSION);
    for _ in 0..5 {
        put_u32(&mut bytes, 0);
    }
    bytes.extend_from_slice(section);
    for _ in 0..3 {
        put_u32(&mut bytes, 0);
    }
    bytes
}

#[test]
fn what_is_accepted_is_written_again_as_it_was() {
    let mut section = vec![2];
    for n in 1..=8 {
        put_u32(&mut section, n);
    }
    put_blob(&mut section, &[1, 2, 3, 4]);
    let bytes = with_cursor(&section);
    let mut longer = bytes.clone();
    longer.extend_from_slice(&[9, 9, 9]);
    let payload = GpuSnapshotPayload::from_bytes(&longer).unwrap();
    assert_eq!(payload.to_bytes(), bytes);

    // The layout without a scanout id is read, and written with one.
    let mut section = vec![1];
    for n in 1..=7 {
        put_u32(&mut section, n);
    }
    put_blob(&mut section, &[1, 2, 3, 4]);
    let old = with_cursor(&section);
    let payload = GpuSnapshotPayload::from_bytes(&old).unwrap();
    assert_eq!(payload.cursor.as_ref().unwrap().scanout_id, 0);
    assert_eq!(payload.to_bytes().len(), old.len() + 4);
}

fn entry(op: GpuJournalOp) -> GpuJournalEntry {
    GpuJournalEntry {
        seq: 9,
        vkr_seq: 4,
        op,
    }
}

#[test]
fn an_empty_payload_is_a_header_and_counts() {
    let bytes = GpuSnapshotPayload::default().to_bytes();
    assert_eq!(&bytes[..4], b"LGPU");
    assert_eq!(&bytes[4..8], &[8, 0, 0, 0]);
    assert!(GpuSnapshotPayload::from_bytes(&bytes).is_some());
    // Each proper prefix is refused.
    for n in 0..bytes.len() {
        assert!(GpuSnapshotPayload::from_bytes(&bytes[..n]).is_none(), "prefix of {n}");
    }
}

#[test]
fn another_version_or_mark_is_refused() {
    let good = GpuSnapshotPayload::default().to_bytes();
    let mut version = good.clone();
    version[4] = 7;
    assert!(GpuSnapshotPayload::from_bytes(&version).is_none());
    let mut mark = good;
    mark[0] = b'X';
    assert!(GpuSnapshotPayload::from_bytes(&mark).is_none());
}

#[test]
fn every_kind_of_op_comes_back() {
    let payload = GpuSnapshotPayload {
        ops: vec![
            entry(GpuJournalOp::CtxCreate {
                ctx_id: 1,
                context_init: 2,
                name: None,
            }),
            entry(GpuJournalOp::ResourceCreate3d {
                resource_id: 1,
                target: 2,
                format: 3,
                bind: 4,
                width: 5,
                height: 6,
                depth: 7,
                array_size: 8,
                last_level: 9,
                nr_samples: 10,
                flags: 11,
            }),
            entry(GpuJournalOp::ResourceCreate2d {
                resource_id: 2,
                format: 67,
                width: 640,
                height: 480,
            }),
            entry(GpuJournalOp::AttachBacking {
                resource_id: 2,
                backing: vec![(0x1000, 0x2000)],
            }),
            entry(GpuJournalOp::SetScanout {
                scanout_id: 3,
                resource_id: 2,
                width: 640,
                height: 480,
            }),
        ],
        ..Default::default()
    };
    let got = GpuSnapshotPayload::from_bytes(&payload.to_bytes()).expect("parse");
    assert_eq!(got.ops.len(), payload.ops.len());
    for (i, (a, b)) in got.ops.iter().zip(payload.ops.iter()).enumerate() {
        // An op's number is its place; what it waits for is kept.
        assert_eq!((a.seq, a.vkr_seq), (i as u64 + 1, 4));
        assert_eq!(format!("{:?}", a.op), format!("{:?}", b.op));
    }
}

#[test]
fn a_name_that_is_not_text_is_refused() {
    let payload = GpuSnapshotPayload {
        ops: vec![entry(GpuJournalOp::CtxCreate {
            ctx_id: 1,
            context_init: 2,
            name: Some("caf\u{e9}".to_string()),
        })],
        ..Default::default()
    };
    let mut bytes = payload.to_bytes();
    let got = GpuSnapshotPayload::from_bytes(&bytes).expect("parse");
    match &got.ops[0].op {
        GpuJournalOp::CtxCreate { name, .. } => assert_eq!(name.as_deref(), Some("caf\u{e9}")),
        other => panic!("wrong op: {other:?}"),
    }
    // Cut the two bytes of the last letter in half.
    let at = bytes.windows(2).position(|w| w == [0xc3, 0xa9]).unwrap();
    bytes[at + 1] = b'x';
    assert!(GpuSnapshotPayload::from_bytes(&bytes).is_none());
}

#[test]
fn numbers_are_little_endian() {
    let mut b = Vec::new();
    put_u8(&mut b, 0x01);
    put_u16(&mut b, 0x0302);
    put_u32(&mut b, 0x0706_0504);
    put_u64(&mut b, 0x0f0e_0d0c_0b0a_0908);
    assert_eq!(b, (1..16u8).collect::<Vec<u8>>());
    let mut c = Cursor { data: &b, pos: 0 };
    assert_eq!(c.u8(), Some(1));
    assert_eq!(c.u16(), Some(0x0302));
    assert_eq!(c.u32(), Some(0x0706_0504));
    assert_eq!(c.u64(), Some(0x0f0e_0d0c_0b0a_0908));
    assert_eq!(c.u8(), None);
    let mut blob = Vec::new();
    put_blob(&mut blob, &[7, 8]);
    assert_eq!(blob, vec![2, 0, 0, 0, 0, 0, 0, 0, 7, 8]);
}
