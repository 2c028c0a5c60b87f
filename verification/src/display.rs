//! What a display looks like to the guest, and its byte encoding.
use crate::codec;
use crate::codec::{
    put_blob, put_bytes, put_opt, put_u16, put_u32, put_u8, to_vec, Cursor, Decoded,
};
use vstd::prelude::*;

verus! {

#[derive(Clone, Copy, PartialEq, Eq, Debug)]
pub enum PhysicalSize {
    Dpi(u32),
    DimensionsMillimeters(u16, u16),
}

/// The identity block of a generated EDID.
#[derive(Clone, Copy, PartialEq, Eq, Debug)]
pub struct EdidIdentity {
    pub manufacturer: [u8; 3],
    pub product_id: u16,
    pub serial: u32,
    pub product_name: [u8; 13],
    pub serial_string: Option<[u8; 13]>,
}

#[derive(Clone, Copy, PartialEq, Eq, Debug)]
pub struct RefreshRange {
    pub min_vertical_hz: u8,
    pub max_vertical_hz: u8,
    pub min_horizontal_khz: u16,
    pub max_horizontal_khz: u16,
    pub max_pixel_clock_mhz: u32,
}

#[derive(Clone, Copy, PartialEq, Eq, Debug)]
pub struct StandardTiming {
    pub width: u16,
    pub height: u16,
    pub refresh_hz: u16,
}

pub type StandardTimings = [Option<StandardTiming>; 8];

#[derive(Clone, Copy, PartialEq, Eq, Debug)]
pub struct DetailedMode {
    pub width: u32,
    pub height: u32,
    pub refresh_hz: u32,
}

/// What a generated EDID is made from.
#[derive(Clone, Copy, PartialEq, Eq, Debug)]
pub struct EdidParams {
    pub refresh_rate: u32,
    pub physical_size: PhysicalSize,
    pub identity: Option<EdidIdentity>,
    pub range: Option<RefreshRange>,
    pub standard_timings: Option<StandardTimings>,
    pub alt_mode: Option<DetailedMode>,
}

#[derive(PartialEq, Eq, Debug)]
pub enum DisplayInfoEdid {
    Generated(EdidParams),
    Provided(Box<[u8]>),
}

/// One scanout's display: its mode, its place on the desktop, its EDID and whether it is plugged
/// in.
#[derive(PartialEq, Eq, Debug)]
pub struct DisplayInfo {
    pub width: u32,
    pub height: u32,
    pub position: (u32, u32),
    pub edid: DisplayInfoEdid,
    pub connected: bool,
}

pub struct EdidIdentityView {
    pub manufacturer: Seq<u8>,
    pub product_id: u16,
    pub serial: u32,
    pub product_name: Seq<u8>,
    pub serial_string: Option<Seq<u8>>,
}

pub struct EdidParamsView {
    pub refresh_rate: u32,
    pub physical_size: PhysicalSize,
    pub identity: Option<EdidIdentityView>,
    pub range: Option<RefreshRange>,
    pub standard_timings: Option<Seq<Option<StandardTiming>>>,
    pub alt_mode: Option<DetailedMode>,
}

pub enum DisplayInfoEdidView {
    Generated(EdidParamsView),
    Provided(Seq<u8>),
}

pub struct DisplayInfoView {
    pub width: u32,
    pub height: u32,
    pub position: (u32, u32),
    pub edid: DisplayInfoEdidView,
    pub connected: bool,
}

impl View for EdidIdentity {
    type V = EdidIdentityView;

    open spec fn view(&self) -> EdidIdentityView {
        EdidIdentityView {
            manufacturer: self.manufacturer@,
            product_id: self.product_id,
            serial: self.serial,
            product_name: self.product_name@,
            serial_string: match self.serial_string {
                Some(s) => Some(s@),
                None => None,
            },
        }
    }
}

impl View for EdidParams {
    type V = EdidParamsView;

    open spec fn view(&self) -> EdidParamsView {
        EdidParamsView {
            refresh_rate: self.refresh_rate,
            physical_size: self.physical_size,
            identity: match self.identity {
                Some(id) => Some(id@),
                None => None,
            },
            range: self.range,
            standard_timings: match self.standard_timings {
                Some(t) => Some(t@),
                None => None,
            },
            alt_mode: self.alt_mode,
        }
    }
}

impl View for DisplayInfoEdid {
    type V = DisplayInfoEdidView;

    open spec fn view(&self) -> DisplayInfoEdidView {
        match self {
            DisplayInfoEdid::Generated(p) => DisplayInfoEdidView::Generated(p@),
            DisplayInfoEdid::Provided(b) => DisplayInfoEdidView::Provided(b@),
        }
    }
}

impl View for DisplayInfo {
    type V = DisplayInfoView;

    open spec fn view(&self) -> DisplayInfoView {
        DisplayInfoView {
            width: self.width,
            height: self.height,
            position: self.position,
            edid: self.edid@,
            connected: self.connected,
        }
    }
}

impl EdidIdentityView {
    /// The fixed-size fields have their sizes.
    pub open spec fn wf(self) -> bool {
        &&& self.manufacturer.len() == 3
        &&& self.product_name.len() == 13
        &&& self.serial_string matches Some(s) ==> s.len() == 13
    }
}

impl EdidParamsView {
    pub open spec fn wf(self) -> bool {
        &&& self.identity matches Some(id) ==> id.wf()
        &&& self.standard_timings matches Some(t) ==> t.len() == 8
    }
}

impl DisplayInfoView {
    pub open spec fn wf(self) -> bool {
        match self.edid {
            DisplayInfoEdidView::Generated(p) => p.wf(),
            DisplayInfoEdidView::Provided(b) => b.len() <= usize::MAX,
        }
    }
}

/// `value`'s encoding behind a presence tag.
pub open spec fn enc_opt<T>(value: Option<T>, f: spec_fn(T) -> Seq<u8>) -> Seq<u8> {
    match value {
        Some(v) => codec::enc_flag(true) + f(v),
        None => codec::enc_flag(false),
    }
}

/// A value behind a presence tag.
pub open spec fn dec_opt<T>(s: Seq<u8>, g: spec_fn(Seq<u8>) -> Decoded<T>) -> Decoded<Option<T>> {
    match codec::dec_flag(s) {
        Some((true, rest)) => match g(rest) {
            Some((v, rest)) => Some((Some(v), rest)),
            None => None,
        },
        Some((false, rest)) => Some((None, rest)),
        None => None,
    }
}

pub open spec fn enc_physical_size(p: PhysicalSize) -> Seq<u8> {
    match p {
        PhysicalSize::Dpi(dpi) => codec::enc_u8(0) + codec::enc_u32(dpi),
        PhysicalSize::DimensionsMillimeters(w, h) => codec::enc_u8(1) + (codec::enc_u16(w) + codec::enc_u16(h)),
    }
}

pub open spec fn dec_physical_size(s: Seq<u8>) -> Decoded<PhysicalSize> {
    match codec::dec_u8(s) {
        Some((0u8, s)) => match codec::dec_u32(s) {
            Some((dpi, s)) => Some((PhysicalSize::Dpi(dpi), s)),
            None => None,
        },
        Some((1u8, s)) => match codec::dec_u16(s) {
            Some((w, s)) => match codec::dec_u16(s) {
                Some((h, s)) => Some((PhysicalSize::DimensionsMillimeters(w, h), s)),
                None => None,
            },
            None => None,
        },
        _ => None,
    }
}

pub open spec fn enc_identity(id: EdidIdentityView) -> Seq<u8> {
    id.manufacturer + (codec::enc_u16(id.product_id) + (codec::enc_u32(id.serial) + (id.product_name + enc_opt(
        id.serial_string,
        |s: Seq<u8>| s,
    ))))
}

pub open spec fn dec_identity(s: Seq<u8>) -> Decoded<EdidIdentityView> {
    match codec::dec_bytes(s, 3) {
        Some((manufacturer, s)) => match codec::dec_u16(s) {
            Some((product_id, s)) => match codec::dec_u32(s) {
                Some((serial, s)) => match codec::dec_bytes(s, 13) {
                    Some((product_name, s)) => match dec_opt(s, |s: Seq<u8>| codec::dec_bytes(s, 13)) {
                        Some((serial_string, s)) => Some(
                            (
                                EdidIdentityView {
                                    manufacturer,
                                    product_id,
                                    serial,
                                    product_name,
                                    serial_string,
                                },
                                s,
                            ),
                        ),
                        None => None,
                    },
                    None => None,
                },
                None => None,
            },
            None => None,
        },
        None => None,
    }
}

pub open spec fn enc_range(r: RefreshRange) -> Seq<u8> {
    codec::enc_u8(r.min_vertical_hz) + (codec::enc_u8(r.max_vertical_hz) + (codec::enc_u16(r.min_horizontal_khz) + (
    codec::enc_u16(r.max_horizontal_khz) + codec::enc_u32(r.max_pixel_clock_mhz))))
}

pub open spec fn dec_range(s: Seq<u8>) -> Decoded<RefreshRange> {
    match codec::dec_u8(s) {
        Some((min_vertical_hz, s)) => match codec::dec_u8(s) {
            Some((max_vertical_hz, s)) => match codec::dec_u16(s) {
                Some((min_horizontal_khz, s)) => match codec::dec_u16(s) {
                    Some((max_horizontal_khz, s)) => match codec::dec_u32(s) {
                        Some((max_pixel_clock_mhz, s)) => Some(
                            (
                                RefreshRange {
                                    min_vertical_hz,
                                    max_vertical_hz,
                                    min_horizontal_khz,
                                    max_horizontal_khz,
                                    max_pixel_clock_mhz,
                                },
                                s,
                            ),
                        ),
                        None => None,
                    },
                    None => None,
                },
                None => None,
            },
            None => None,
        },
        None => None,
    }
}

pub open spec fn enc_timing(t: StandardTiming) -> Seq<u8> {
    codec::enc_u16(t.width) + (codec::enc_u16(t.height) + codec::enc_u16(t.refresh_hz))
}

pub open spec fn dec_timing(s: Seq<u8>) -> Decoded<StandardTiming> {
    match codec::dec_u16(s) {
        Some((width, s)) => match codec::dec_u16(s) {
            Some((height, s)) => match codec::dec_u16(s) {
                Some((refresh_hz, s)) => Some((StandardTiming { width, height, refresh_hz }, s)),
                None => None,
            },
            None => None,
        },
        None => None,
    }
}

pub open spec fn enc_slot(t: Option<StandardTiming>) -> Seq<u8> {
    enc_opt(t, |t: StandardTiming| enc_timing(t))
}

pub open spec fn dec_slot(s: Seq<u8>) -> Decoded<Option<StandardTiming>> {
    dec_opt(s, |s: Seq<u8>| dec_timing(s))
}

pub open spec fn enc_timings(t: Seq<Option<StandardTiming>>) -> Seq<u8> {
    codec::enc_list(t, |t: Option<StandardTiming>| enc_slot(t))
}

pub open spec fn dec_timings(s: Seq<u8>) -> Decoded<Seq<Option<StandardTiming>>> {
    codec::dec_list(s, 8, |s: Seq<u8>| dec_slot(s))
}

pub open spec fn enc_mode(m: DetailedMode) -> Seq<u8> {
    codec::enc_u32(m.width) + (codec::enc_u32(m.height) + codec::enc_u32(m.refresh_hz))
}

pub open spec fn dec_mode(s: Seq<u8>) -> Decoded<DetailedMode> {
    match codec::dec_u32(s) {
        Some((width, s)) => match codec::dec_u32(s) {
            Some((height, s)) => match codec::dec_u32(s) {
                Some((refresh_hz, s)) => Some((DetailedMode { width, height, refresh_hz }, s)),
                None => None,
            },
            None => None,
        },
        None => None,
    }
}

pub open spec fn enc_edid_params(p: EdidParamsView) -> Seq<u8> {
    codec::enc_u32(p.refresh_rate) + (enc_physical_size(p.physical_size) + (enc_opt(
        p.identity,
        |id: EdidIdentityView| enc_identity(id),
    ) + (enc_opt(p.range, |r: RefreshRange| enc_range(r)) + (enc_opt(
        p.standard_timings,
        |t: Seq<Option<StandardTiming>>| enc_timings(t),
    ) + enc_opt(p.alt_mode, |m: DetailedMode| enc_mode(m))))))
}

pub open spec fn dec_edid_params(s: Seq<u8>) -> Decoded<EdidParamsView> {
    match codec::dec_u32(s) {
        Some((refresh_rate, s)) => match dec_physical_size(s) {
            Some((physical_size, s)) => match dec_opt(s, |s: Seq<u8>| dec_identity(s)) {
                Some((identity, s)) => match dec_opt(s, |s: Seq<u8>| dec_range(s)) {
                    Some((range, s)) => match dec_opt(s, |s: Seq<u8>| dec_timings(s)) {
                        Some((standard_timings, s)) => match dec_opt(s, |s: Seq<u8>| dec_mode(s)) {
                            Some((alt_mode, s)) => Some(
                                (
                                    EdidParamsView {
                                        refresh_rate,
                                        physical_size,
                                        identity,
                                        range,
                                        standard_timings,
                                        alt_mode,
                                    },
                                    s,
                                ),
                            ),
                            None => None,
                        },
                        None => None,
                    },
                    None => None,
                },
                None => None,
            },
            None => None,
        },
        None => None,
    }
}

pub open spec fn enc_edid(e: DisplayInfoEdidView) -> Seq<u8> {
    match e {
        DisplayInfoEdidView::Generated(p) => codec::enc_u8(0) + enc_edid_params(p),
        DisplayInfoEdidView::Provided(b) => codec::enc_u8(1) + codec::enc_blob(b),
    }
}

pub open spec fn dec_edid(s: Seq<u8>) -> Decoded<DisplayInfoEdidView> {
    match codec::dec_u8(s) {
        Some((0u8, s)) => match dec_edid_params(s) {
            Some((p, s)) => Some((DisplayInfoEdidView::Generated(p), s)),
            None => None,
        },
        Some((1u8, s)) => match codec::dec_blob(s) {
            Some((b, s)) => Some((DisplayInfoEdidView::Provided(b), s)),
            None => None,
        },
        _ => None,
    }
}

/// The mode, the position, the connected byte and the EDID.
pub open spec fn enc_display(d: DisplayInfoView) -> Seq<u8> {
    codec::enc_u32(d.width) + (codec::enc_u32(d.height) + (codec::enc_u32(d.position.0) + (codec::enc_u32(d.position.1) + (
    codec::enc_flag(d.connected) + enc_edid(d.edid)))))
}

pub open spec fn dec_display(s: Seq<u8>) -> Decoded<DisplayInfoView> {
    match codec::dec_u32(s) {
        Some((width, s)) => match codec::dec_u32(s) {
            Some((height, s)) => match codec::dec_u32(s) {
                Some((x, s)) => match codec::dec_u32(s) {
                    Some((y, s)) => match codec::dec_flag(s) {
                        Some((connected, s)) => match dec_edid(s) {
                            Some((edid, s)) => Some(
                                (
                                    DisplayInfoView {
                                        width,
                                        height,
                                        position: (x, y),
                                        edid,
                                        connected,
                                    },
                                    s,
                                ),
                            ),
                            None => None,
                        },
                        None => None,
                    },
                    None => None,
                },
                None => None,
            },
            None => None,
        },
        None => None,
    }
}

/// An optional value round-trips when the value does.
pub proof fn lemma_opt_round_trip<T>(
    value: Option<T>,
    f: spec_fn(T) -> Seq<u8>,
    g: spec_fn(Seq<u8>) -> Decoded<T>,
    rest: Seq<u8>,
)
    requires
        value matches Some(v) ==> g(f(v) + rest) == Some((v, rest)),
    ensures
        dec_opt(enc_opt(value, f) + rest, g) == Some((value, rest)),
{
    broadcast use {codec::lemma_concat_assoc, codec::lemma_flag_round_trip};

}

pub proof fn lemma_opt_extends<T>(s: Seq<u8>, t: Seq<u8>, g: spec_fn(Seq<u8>) -> Decoded<T>)
    requires
        forall|s: Seq<u8>, t: Seq<u8>| codec::extends(g(s), #[trigger] g(s + t), t),
    ensures
        codec::extends(dec_opt(s, g), dec_opt(s + t, g), t),
{
    codec::lemma_flag_extends(s, t);
    match codec::dec_flag(s) {
        Some((present, rest)) => {
            assert(codec::extends(g(rest), g(rest + t), t));
        },
        None => {},
    }
}

pub broadcast proof fn lemma_physical_size_round_trip(p: PhysicalSize, rest: Seq<u8>)
    ensures
        #[trigger] dec_physical_size(enc_physical_size(p) + rest) == Some((p, rest)),
{
    broadcast use codec::group_round_trip;

}

pub broadcast proof fn lemma_identity_round_trip(id: EdidIdentityView, rest: Seq<u8>)
    requires
        id.wf(),
    ensures
        #[trigger] dec_identity(enc_identity(id) + rest) == Some((id, rest)),
{
    broadcast use codec::group_round_trip;

    let f = |s: Seq<u8>| s;
    let g = |s: Seq<u8>| codec::dec_bytes(s, 13);
    let tail = enc_opt(id.serial_string, f);
    let t3 = id.product_name + tail;
    let t2 = codec::enc_u32(id.serial) + t3;
    let t1 = codec::enc_u16(id.product_id) + t2;
    codec::lemma_bytes_round_trip(id.manufacturer, t1 + rest, 3);
    codec::lemma_bytes_round_trip(id.product_name, tail + rest, 13);
    match id.serial_string {
        Some(s) => {
            codec::lemma_bytes_round_trip(s, rest, 13);
        },
        None => {},
    }
    lemma_opt_round_trip(id.serial_string, f, g, rest);
}

pub broadcast proof fn lemma_range_round_trip(r: RefreshRange, rest: Seq<u8>)
    ensures
        #[trigger] dec_range(enc_range(r) + rest) == Some((r, rest)),
{
    broadcast use codec::group_round_trip;

}

pub broadcast proof fn lemma_slot_round_trip(t: Option<StandardTiming>, rest: Seq<u8>)
    ensures
        #[trigger] dec_slot(enc_slot(t) + rest) == Some((t, rest)),
{
    broadcast use codec::group_round_trip;

    lemma_opt_round_trip(
        t,
        |t: StandardTiming| enc_timing(t),
        |s: Seq<u8>| dec_timing(s),
        rest,
    );
}

pub broadcast proof fn lemma_timings_round_trip(t: Seq<Option<StandardTiming>>, rest: Seq<u8>)
    requires
        t.len() == 8,
    ensures
        #[trigger] dec_timings(enc_timings(t) + rest) == Some((t, rest)),
{
    broadcast use lemma_slot_round_trip;

    codec::lemma_list_round_trip(
        t,
        |t: Option<StandardTiming>| enc_slot(t),
        |s: Seq<u8>| dec_slot(s),
        rest,
    );
}

pub broadcast proof fn lemma_mode_round_trip(m: DetailedMode, rest: Seq<u8>)
    ensures
        #[trigger] dec_mode(enc_mode(m) + rest) == Some((m, rest)),
{
    broadcast use codec::group_round_trip;

}

pub broadcast proof fn lemma_edid_params_round_trip(p: EdidParamsView, rest: Seq<u8>)
    requires
        p.wf(),
    ensures
        #[trigger] dec_edid_params(enc_edid_params(p) + rest) == Some((p, rest)),
{
    broadcast use {
        codec::group_round_trip,
        lemma_physical_size_round_trip,
        lemma_identity_round_trip,
        lemma_range_round_trip,
        lemma_timings_round_trip,
        lemma_mode_round_trip,
    };

    let f1 = |id: EdidIdentityView| enc_identity(id);
    let f2 = |r: RefreshRange| enc_range(r);
    let f3 = |t: Seq<Option<StandardTiming>>| enc_timings(t);
    let f4 = |m: DetailedMode| enc_mode(m);
    let e4 = enc_opt(p.alt_mode, f4);
    let e3 = enc_opt(p.standard_timings, f3);
    let e2 = enc_opt(p.range, f2);
    lemma_opt_round_trip(p.alt_mode, f4, |s: Seq<u8>| dec_mode(s), rest);
    lemma_opt_round_trip(p.standard_timings, f3, |s: Seq<u8>| dec_timings(s), e4 + rest);
    lemma_opt_round_trip(p.range, f2, |s: Seq<u8>| dec_range(s), e3 + (e4 + rest));
    lemma_opt_round_trip(p.identity, f1, |s: Seq<u8>| dec_identity(s), e2 + (e3 + (e4 + rest)));
}

/// A display reads back as it was written.
pub broadcast proof fn lemma_display_round_trip(d: DisplayInfoView, rest: Seq<u8>)
    requires
        d.wf(),
    ensures
        #[trigger] dec_display(enc_display(d) + rest) == Some((d, rest)),
{
    broadcast use {codec::group_round_trip, lemma_edid_params_round_trip};

    match d.edid {
        DisplayInfoEdidView::Generated(p) => {
            lemma_edid_params_round_trip(p, rest);
        },
        DisplayInfoEdidView::Provided(b) => {
            codec::lemma_blob_round_trip(b, rest);
        },
    }
    assert(dec_edid(enc_edid(d.edid) + rest) == Some((d.edid, rest)));
}

proof fn lemma_identity_extends(s: Seq<u8>, t: Seq<u8>)
    ensures
        codec::extends(dec_identity(s), dec_identity(s + t), t),
{
    broadcast use codec::group_extends;

    let g = |s: Seq<u8>| codec::dec_bytes(s, 13);
    assert forall|s: Seq<u8>, t: Seq<u8>| codec::extends(
        dec_opt(s, g),
        #[trigger] dec_opt(s + t, g),
        t,
    ) by {
        lemma_opt_extends(s, t, g);
    }
}

proof fn lemma_slot_extends(s: Seq<u8>, t: Seq<u8>)
    ensures
        codec::extends(dec_slot(s), dec_slot(s + t), t),
{
    let g = |s: Seq<u8>| dec_timing(s);
    assert forall|s: Seq<u8>, t: Seq<u8>| codec::extends(g(s), #[trigger] g(s + t), t) by {
        broadcast use codec::group_extends;

    }
    lemma_opt_extends(s, t, g);
}

proof fn lemma_timings_extends(s: Seq<u8>, t: Seq<u8>)
    ensures
        codec::extends(dec_timings(s), dec_timings(s + t), t),
{
    let g = |s: Seq<u8>| dec_slot(s);
    assert forall|s: Seq<u8>, t: Seq<u8>| codec::extends(g(s), #[trigger] g(s + t), t) by {
        lemma_slot_extends(s, t);
    }
    codec::lemma_list_extends(s, t, 8, g);
}

proof fn lemma_edid_params_extends(s: Seq<u8>, t: Seq<u8>)
    ensures
        codec::extends(dec_edid_params(s), dec_edid_params(s + t), t),
{
    let g1 = |s: Seq<u8>| dec_identity(s);
    let g2 = |s: Seq<u8>| dec_range(s);
    let g3 = |s: Seq<u8>| dec_timings(s);
    let g4 = |s: Seq<u8>| dec_mode(s);
    assert forall|s: Seq<u8>, t: Seq<u8>| codec::extends(
        dec_opt(s, g1),
        #[trigger] dec_opt(s + t, g1),
        t,
    ) by {
        assert forall|s: Seq<u8>, t: Seq<u8>| codec::extends(g1(s), #[trigger] g1(s + t), t) by {
            lemma_identity_extends(s, t);
        }
        lemma_opt_extends(s, t, g1);
    }
    assert forall|s: Seq<u8>, t: Seq<u8>| codec::extends(
        dec_opt(s, g2),
        #[trigger] dec_opt(s + t, g2),
        t,
    ) by {
        assert forall|s: Seq<u8>, t: Seq<u8>| codec::extends(g2(s), #[trigger] g2(s + t), t) by {
            broadcast use codec::group_extends;

        }
        lemma_opt_extends(s, t, g2);
    }
    assert forall|s: Seq<u8>, t: Seq<u8>| codec::extends(
        dec_opt(s, g3),
        #[trigger] dec_opt(s + t, g3),
        t,
    ) by {
        assert forall|s: Seq<u8>, t: Seq<u8>| codec::extends(g3(s), #[trigger] g3(s + t), t) by {
            lemma_timings_extends(s, t);
        }
        lemma_opt_extends(s, t, g3);
    }
    assert forall|s: Seq<u8>, t: Seq<u8>| codec::extends(
        dec_opt(s, g4),
        #[trigger] dec_opt(s + t, g4),
        t,
    ) by {
        assert forall|s: Seq<u8>, t: Seq<u8>| codec::extends(g4(s), #[trigger] g4(s + t), t) by {
            broadcast use codec::group_extends;

        }
        lemma_opt_extends(s, t, g4);
    }
    broadcast use codec::group_extends;

}

/// Bytes after a display change nothing of how it reads.
pub broadcast proof fn lemma_display_extends(s: Seq<u8>, t: Seq<u8>)
    ensures
        codec::extends(dec_display(s), #[trigger] dec_display(s + t), t),
{
    assert forall|s: Seq<u8>, t: Seq<u8>| codec::extends(dec_edid(s), #[trigger] dec_edid(s + t), t) by {
        broadcast use codec::group_extends;

        match codec::dec_u8(s) {
            Some((b, rest)) => {
                lemma_edid_params_extends(rest, t);
            },
            None => {},
        }
    }
    broadcast use codec::group_extends;

}

/// Moves the bytes of `v` into a boxed slice, by `Vec::into_boxed_slice`: the slice holds the
/// same bytes in the same order.
#[verifier::external_body]
fn boxed(v: Vec<u8>) -> (b: Box<[u8]>)
    ensures
        b@ == v@,
{
    v.into_boxed_slice()
}

impl DisplayInfo {
    /// A display that looks the same.
    pub fn copied(&self) -> (r: Self)
        ensures
            r@ == self@,
    {
        DisplayInfo {
            width: self.width,
            height: self.height,
            position: self.position,
            edid: match &self.edid {
                DisplayInfoEdid::Generated(p) => DisplayInfoEdid::Generated(*p),
                DisplayInfoEdid::Provided(b) => DisplayInfoEdid::Provided(boxed(to_vec(b))),
            },
            connected: self.connected,
        }
    }
}

fn put_physical_size(buf: &mut Vec<u8>, p: PhysicalSize)
    ensures
        final(buf)@ == old(buf)@ + enc_physical_size(p),
{
    broadcast use codec::lemma_concat_assoc;

    match p {
        PhysicalSize::Dpi(dpi) => {
            put_u8(buf, 0);
            put_u32(buf, dpi);
        },
        PhysicalSize::DimensionsMillimeters(w, h) => {
            put_u8(buf, 1);
            put_u16(buf, w);
            put_u16(buf, h);
        },
    }
}

fn put_identity(buf: &mut Vec<u8>, id: &EdidIdentity)
    ensures
        final(buf)@ == old(buf)@ + enc_identity(id@),
{
    broadcast use codec::lemma_concat_assoc;

    put_bytes(buf, id.manufacturer.as_slice());
    put_u16(buf, id.product_id);
    put_u32(buf, id.serial);
    put_bytes(buf, id.product_name.as_slice());
    match &id.serial_string {
        Some(s) => {
            put_opt(buf, true);
            put_bytes(buf, s.as_slice());
        },
        None => {
            put_opt(buf, false);
        },
    }
}

fn put_timings(buf: &mut Vec<u8>, timings: &StandardTimings)
    ensures
        final(buf)@ == old(buf)@ + enc_timings(timings@),
{
    broadcast use codec::lemma_concat_assoc;

    let ghost f = |t: Option<StandardTiming>| enc_slot(t);
    let mut i: usize = 0;
    assert(timings@.take(0) =~= Seq::empty());
    assert(buf@ =~= old(buf)@ + Seq::empty());
    while i < 8
        invariant
            i <= 8,
            timings@.len() == 8,
            f == (|t: Option<StandardTiming>| enc_slot(t)),
            buf@ == old(buf)@ + codec::enc_list(timings@.take(i as int), f),
        decreases 8 - i,
    {
        broadcast use codec::lemma_concat_assoc;

        match timings[i] {
            Some(t) => {
                put_opt(buf, true);
                put_u16(buf, t.width);
                put_u16(buf, t.height);
                put_u16(buf, t.refresh_hz);
            },
            None => {
                put_opt(buf, false);
            },
        }
        proof {
            codec::lemma_list_push(timings@, i as int, f);
        }
        i = i + 1;
    }
    assert(timings@.take(8) =~= timings@);
}

fn put_opt_identity(buf: &mut Vec<u8>, id: &Option<EdidIdentity>)
    ensures
        final(buf)@ == old(buf)@ + enc_opt(
            match *id {
                Some(id) => Some(id@),
                None => None,
            },
            |id: EdidIdentityView| enc_identity(id),
        ),
{
    broadcast use codec::lemma_concat_assoc;

    match id {
        Some(id) => {
            put_opt(buf, true);
            put_identity(buf, id);
        },
        None => {
            put_opt(buf, false);
        },
    }
}

fn put_opt_range(buf: &mut Vec<u8>, range: &Option<RefreshRange>)
    ensures
        final(buf)@ == old(buf)@ + enc_opt(*range, |r: RefreshRange| enc_range(r)),
{
    broadcast use codec::lemma_concat_assoc;

    match range {
        Some(r) => {
            put_opt(buf, true);
            put_u8(buf, r.min_vertical_hz);
            put_u8(buf, r.max_vertical_hz);
            put_u16(buf, r.min_horizontal_khz);
            put_u16(buf, r.max_horizontal_khz);
            put_u32(buf, r.max_pixel_clock_mhz);
        },
        None => {
            put_opt(buf, false);
        },
    }
}

fn put_opt_timings(buf: &mut Vec<u8>, timings: &Option<StandardTimings>)
    ensures
        final(buf)@ == old(buf)@ + enc_opt(
            match *timings {
                Some(t) => Some(t@),
                None => None,
            },
            |t: Seq<Option<StandardTiming>>| enc_timings(t),
        ),
{
    broadcast use codec::lemma_concat_assoc;

    match timings {
        Some(timings) => {
            put_opt(buf, true);
            put_timings(buf, timings);
        },
        None => {
            put_opt(buf, false);
        },
    }
}

fn put_opt_mode(buf: &mut Vec<u8>, mode: &Option<DetailedMode>)
    ensures
        final(buf)@ == old(buf)@ + enc_opt(*mode, |m: DetailedMode| enc_mode(m)),
{
    broadcast use codec::lemma_concat_assoc;

    match mode {
        Some(m) => {
            put_opt(buf, true);
            put_u32(buf, m.width);
            put_u32(buf, m.height);
            put_u32(buf, m.refresh_hz);
        },
        None => {
            put_opt(buf, false);
        },
    }
}

/// Appends what a generated EDID is made from: the refresh rate, the size, and each optional
/// block behind a presence tag.
pub fn put_edid_params(buf: &mut Vec<u8>, p: &EdidParams)
    ensures
        final(buf)@ == old(buf)@ + enc_edid_params(p@),
{
    broadcast use codec::lemma_concat_assoc;

    put_u32(buf, p.refresh_rate);
    put_physical_size(buf, p.physical_size);
    put_opt_identity(buf, &p.identity);
    put_opt_range(buf, &p.range);
    put_opt_timings(buf, &p.standard_timings);
    put_opt_mode(buf, &p.alt_mode);
}

/// Appends a display.
pub fn put_display(buf: &mut Vec<u8>, d: &DisplayInfo)
    ensures
        final(buf)@ == old(buf)@ + enc_display(d@),
{
    broadcast use codec::lemma_concat_assoc;

    put_u32(buf, d.width);
    put_u32(buf, d.height);
    put_u32(buf, d.position.0);
    put_u32(buf, d.position.1);
    put_opt(buf, d.connected);
    match &d.edid {
        DisplayInfoEdid::Generated(p) => {
            put_u8(buf, 0);
            put_edid_params(buf, p);
        },
        DisplayInfoEdid::Provided(bytes) => {
            put_u8(buf, 1);
            put_blob(buf, bytes);
        },
    }
}

fn get_physical_size(c: &mut Cursor) -> (r: Option<PhysicalSize>)
    ensures
        old(c).data == final(c).data,
        match dec_physical_size(old(c).rest()) {
            Some((p, rest)) => r == Some(p) && final(c).wf() && final(c).rest() == rest,
            None => r is None,
        },
{
    match c.u8()? {
        0 => Some(PhysicalSize::Dpi(c.u32()?)),
        1 => {
            let w: u16 = c.u16()?;
            let h: u16 = c.u16()?;
            Some(PhysicalSize::DimensionsMillimeters(w, h))
        },
        _ => None,
    }
}

fn get_name(c: &mut Cursor) -> (r: Option<[u8; 13]>)
    ensures
        old(c).reads_view(*final(c), r, codec::dec_bytes(old(c).rest(), 13)),
{
    let b = c.take(13)?;
    let a: [u8; 13] = [
        b[0], b[1], b[2], b[3], b[4], b[5], b[6], b[7], b[8], b[9], b[10], b[11], b[12],
    ];
    assert(a@ =~= b@);
    Some(a)
}

fn get_identity(c: &mut Cursor) -> (r: Option<EdidIdentity>)
    ensures
        old(c).reads_view(*final(c), r, dec_identity(old(c).rest())),
{
    let b = c.take(3)?;
    let manufacturer: [u8; 3] = [b[0], b[1], b[2]];
    assert(manufacturer@ =~= b@);
    let product_id: u16 = c.u16()?;
    let serial: u32 = c.u32()?;
    let product_name: [u8; 13] = get_name(c)?;
    let serial_string: Option<[u8; 13]> = if c.opt()? {
        Some(get_name(c)?)
    } else {
        None
    };
    Some(EdidIdentity { manufacturer, product_id, serial, product_name, serial_string })
}

fn get_timings(c: &mut Cursor) -> (r: Option<StandardTimings>)
    ensures
        old(c).reads_view(*final(c), r, dec_timings(old(c).rest())),
{
    let mut timings: StandardTimings = [None, None, None, None, None, None, None, None];
    let ghost g = |s: Seq<u8>| dec_slot(s);
    let ghost start = c.rest();
    let mut i: usize = 0;
    assert(timings@.take(0) =~= Seq::empty());
    while i < 8
        invariant
            i <= 8,
            timings@.len() == 8,
            c.data == old(c).data,
            start == old(c).rest(),
            g == (|s: Seq<u8>| dec_slot(s)),
            codec::dec_list(start, i as nat, g) == Some((timings@.take(i as int), c.rest())),
            i > 0 ==> c.wf(),
        decreases 8 - i,
    {
        proof {
            codec::lemma_list_step(start, i as nat, g);
            if dec_slot(c.rest()) is None {
                codec::lemma_list_fails(start, (i + 1) as nat, 8, g);
            }
        }
        let slot: Option<StandardTiming> = if c.opt()? {
            let width: u16 = c.u16()?;
            let height: u16 = c.u16()?;
            let refresh_hz: u16 = c.u16()?;
            Some(StandardTiming { width, height, refresh_hz })
        } else {
            None
        };
        let ghost before = timings@;
        timings[i] = slot;
        i = i + 1;
        assert(timings@.take(i as int) =~= before.take(i - 1).push(slot));
    }
    assert(timings@.take(8) =~= timings@);
    Some(timings)
}

fn get_opt_identity(c: &mut Cursor) -> (r: Option<Option<EdidIdentity>>)
    ensures
        final(c).data == old(c).data,
        match dec_opt(old(c).rest(), |s: Seq<u8>| dec_identity(s)) {
            Some((v, rest)) => {
                &&& r is Some
                &&& match r.unwrap() {
                    Some(id) => v == Some(id@),
                    None => v is None,
                }
                &&& final(c).wf()
                &&& final(c).rest() == rest
            },
            None => r is None,
        },
{
    if c.opt()? {
        Some(Some(get_identity(c)?))
    } else {
        Some(None)
    }
}

fn get_opt_range(c: &mut Cursor) -> (r: Option<Option<RefreshRange>>)
    ensures
        final(c).data == old(c).data,
        match dec_opt(old(c).rest(), |s: Seq<u8>| dec_range(s)) {
            Some((v, rest)) => r == Some(v) && final(c).wf() && final(c).rest() == rest,
            None => r is None,
        },
{
    if c.opt()? {
        let min_vertical_hz: u8 = c.u8()?;
        let max_vertical_hz: u8 = c.u8()?;
        let min_horizontal_khz: u16 = c.u16()?;
        let max_horizontal_khz: u16 = c.u16()?;
        let max_pixel_clock_mhz: u32 = c.u32()?;
        Some(
            Some(
                RefreshRange {
                    min_vertical_hz,
                    max_vertical_hz,
                    min_horizontal_khz,
                    max_horizontal_khz,
                    max_pixel_clock_mhz,
                },
            ),
        )
    } else {
        Some(None)
    }
}

fn get_opt_timings(c: &mut Cursor) -> (r: Option<Option<StandardTimings>>)
    ensures
        final(c).data == old(c).data,
        match dec_opt(old(c).rest(), |s: Seq<u8>| dec_timings(s)) {
            Some((v, rest)) => {
                &&& r is Some
                &&& match r.unwrap() {
                    Some(t) => v == Some(t@),
                    None => v is None,
                }
                &&& final(c).wf()
                &&& final(c).rest() == rest
            },
            None => r is None,
        },
{
    if c.opt()? {
        Some(Some(get_timings(c)?))
    } else {
        Some(None)
    }
}

fn get_opt_mode(c: &mut Cursor) -> (r: Option<Option<DetailedMode>>)
    ensures
        final(c).data == old(c).data,
        match dec_opt(old(c).rest(), |s: Seq<u8>| dec_mode(s)) {
            Some((v, rest)) => r == Some(v) && final(c).wf() && final(c).rest() == rest,
            None => r is None,
        },
{
    if c.opt()? {
        let width: u32 = c.u32()?;
        let height: u32 = c.u32()?;
        let refresh_hz: u32 = c.u32()?;
        Some(Some(DetailedMode { width, height, refresh_hz }))
    } else {
        Some(None)
    }
}

/// Reads what a generated EDID is made from.
pub fn get_edid_params(c: &mut Cursor) -> (r: Option<EdidParams>)
    ensures
        old(c).reads_view(*final(c), r, dec_edid_params(old(c).rest())),
{
    let refresh_rate: u32 = c.u32()?;
    let physical_size: PhysicalSize = get_physical_size(c)?;
    let identity: Option<EdidIdentity> = get_opt_identity(c)?;
    let range: Option<RefreshRange> = get_opt_range(c)?;
    let standard_timings: Option<StandardTimings> = get_opt_timings(c)?;
    let alt_mode: Option<DetailedMode> = get_opt_mode(c)?;
    Some(EdidParams { refresh_rate, physical_size, identity, range, standard_timings, alt_mode })
}

/// Reads a display.
pub fn get_display(c: &mut Cursor) -> (r: Option<DisplayInfo>)
    ensures
        old(c).reads_view(*final(c), r, dec_display(old(c).rest())),
{
    let width: u32 = c.u32()?;
    let height: u32 = c.u32()?;
    let x: u32 = c.u32()?;
    let y: u32 = c.u32()?;
    let connected: bool = c.opt()?;
    let edid: DisplayInfoEdid = match c.u8()? {
        0 => DisplayInfoEdid::Generated(get_edid_params(c)?),
        1 => DisplayInfoEdid::Provided(boxed(c.blob()?)),
        _ => {
            return None;
        },
    };
    Some(DisplayInfo { width, height, position: (x, y), edid, connected })
}

} // verus!
