//! The virtio-gpu vocabulary: responses, pixel formats and flags.
use vstd::prelude::*;

verus! {

/// The command carries a fence.
pub const VIRTIO_GPU_FLAG_FENCE: u32 = 1;

/// The fence belongs to a ring of the command's context.
pub const VIRTIO_GPU_FLAG_INFO_RING_IDX: u32 = 2;

pub const VIRTIO_GPU_MAX_SCANOUTS: u32 = 16;

/// Config-space event: the display configuration changed.
pub const VIRTIO_GPU_EVENT_DISPLAY: u32 = 1;

/// Blob memory that lives in the host renderer only.
pub const VIRTIO_GPU_BLOB_MEM_HOST3D: u32 = 2;

/// The guest asks for a handle of its own to the blob.
pub const VIRTIO_GPU_BLOB_FLAG_CREATE_GUEST_HANDLE: u32 = 8;

/// Every pixel format here takes four bytes a pixel.
pub const BYTES_PER_PIXEL: usize = 4;

/// A pixel format that the display knows.
#[derive(Clone, Copy, PartialEq, Eq, Structural, Debug)]
pub enum ResourceFormat {
    BGRA,
    BGRX,
    ARGB,
    XRGB,
    RGBA,
    XBGR,
    ABGR,
    RGBX,
}

impl ResourceFormat {
    /// The format's code on the wire.
    pub open spec fn code(self) -> u32 {
        match self {
            ResourceFormat::BGRA => 1,
            ResourceFormat::BGRX => 2,
            ResourceFormat::ARGB => 3,
            ResourceFormat::XRGB => 4,
            ResourceFormat::RGBA => 67,
            ResourceFormat::XBGR => 68,
            ResourceFormat::ABGR => 121,
            ResourceFormat::RGBX => 134,
        }
    }

    /// The code on the wire.
    pub fn to_code(self) -> (r: u32)
        ensures
            r == self.code(),
    {
        match self {
            ResourceFormat::BGRA => 1,
            ResourceFormat::BGRX => 2,
            ResourceFormat::ARGB => 3,
            ResourceFormat::XRGB => 4,
            ResourceFormat::RGBA => 67,
            ResourceFormat::XBGR => 68,
            ResourceFormat::ABGR => 121,
            ResourceFormat::RGBX => 134,
        }
    }

    /// The format with this code, if there is one.
    pub open spec fn of_code(code: u32) -> Option<ResourceFormat> {
        if code == 1 {
            Some(ResourceFormat::BGRA)
        } else if code == 2 {
            Some(ResourceFormat::BGRX)
        } else if code == 3 {
            Some(ResourceFormat::ARGB)
        } else if code == 4 {
            Some(ResourceFormat::XRGB)
        } else if code == 67 {
            Some(ResourceFormat::RGBA)
        } else if code == 68 {
            Some(ResourceFormat::XBGR)
        } else if code == 121 {
            Some(ResourceFormat::ABGR)
        } else if code == 134 {
            Some(ResourceFormat::RGBX)
        } else {
            None
        }
    }

    /// The format with this code, if there is one.
    pub fn from_code(code: u32) -> (r: Option<ResourceFormat>)
        ensures
            r == Self::of_code(code),
    {
        match code {
            1 => Some(ResourceFormat::BGRA),
            2 => Some(ResourceFormat::BGRX),
            3 => Some(ResourceFormat::ARGB),
            4 => Some(ResourceFormat::XRGB),
            67 => Some(ResourceFormat::RGBA),
            68 => Some(ResourceFormat::XBGR),
            121 => Some(ResourceFormat::ABGR),
            134 => Some(ResourceFormat::RGBX),
            _ => None,
        }
    }

    /// The same channel order with the padding byte read as alpha.
    pub open spec fn alpha(self) -> ResourceFormat {
        match self {
            ResourceFormat::BGRX => ResourceFormat::BGRA,
            ResourceFormat::XRGB => ResourceFormat::ARGB,
            ResourceFormat::RGBX => ResourceFormat::RGBA,
            ResourceFormat::XBGR => ResourceFormat::ABGR,
            f => f,
        }
    }

    /// The alpha-carrying counterpart. Cursor images carry real alpha in bytes that their format
    /// calls padding.
    pub fn with_alpha(self) -> (r: ResourceFormat)
        ensures
            r == self.alpha(),
    {
        match self {
            ResourceFormat::BGRX => ResourceFormat::BGRA,
            ResourceFormat::XRGB => ResourceFormat::ARGB,
            ResourceFormat::RGBX => ResourceFormat::RGBA,
            ResourceFormat::XBGR => ResourceFormat::ABGR,
            f => f,
        }
    }
}

/// A code names at most one format, and every format has its code.
pub proof fn law_format_codes(f: ResourceFormat, code: u32)
    ensures
        ResourceFormat::of_code(f.code()) == Some(f),
        ResourceFormat::of_code(code) matches Some(g) ==> g.code() == code,
        f.alpha().alpha() == f.alpha(),
{
}

/// Why the renderer refused a command.
#[derive(Clone, Copy, PartialEq, Eq, Structural, Debug)]
pub enum RendererError {
    InvalidContextId,
    InvalidResourceId,
    Unsupported,
    Other,
}

/// Why the display backend refused a call.
#[derive(Clone, Copy, PartialEq, Eq, Structural, Debug)]
pub enum DisplayError {
    MethodNotSupported,
    Other,
}

#[derive(Clone, Copy, PartialEq, Eq, Structural, Debug)]
pub struct GpuResponsePlaneInfo {
    pub stride: u32,
    pub offset: u32,
}

/// What the device answers to a command.
#[derive(PartialEq, Eq, Debug)]
pub enum GpuResponse {
    OkNoData,
    /// Per display: its width, its height and whether it is enabled.
    OkDisplayInfo(Vec<(u32, u32, bool)>),
    OkEdid(Vec<u8>),
    OkCapsetInfo { capset_id: u32, version: u32, size: u32 },
    OkCapset(Vec<u8>),
    OkResourcePlaneInfo { format_modifier: u64, plane_info: Vec<GpuResponsePlaneInfo> },
    OkResourceUuid { uuid: [u8; 16] },
    OkMapInfo { map_info: u32 },
    ErrUnspec,
    ErrRutabaga(RendererError),
    ErrDisplay(DisplayError),
    ErrInvalidScanoutId,
    ErrInvalidResourceId,
    ErrInvalidContextId,
    ErrInvalidParameter,
}

pub type VirtioGpuResult = Result<GpuResponse, GpuResponse>;

pub enum GpuResponseView {
    OkNoData,
    OkDisplayInfo(Seq<(u32, u32, bool)>),
    OkEdid(Seq<u8>),
    OkCapsetInfo { capset_id: u32, version: u32, size: u32 },
    OkCapset(Seq<u8>),
    OkResourcePlaneInfo { format_modifier: u64, plane_info: Seq<GpuResponsePlaneInfo> },
    OkResourceUuid { uuid: Seq<u8> },
    OkMapInfo { map_info: u32 },
    ErrUnspec,
    ErrRutabaga(RendererError),
    ErrDisplay(DisplayError),
    ErrInvalidScanoutId,
    ErrInvalidResourceId,
    ErrInvalidContextId,
    ErrInvalidParameter,
}

impl View for GpuResponse {
    type V = GpuResponseView;

    open spec fn view(&self) -> GpuResponseView {
        match *self {
            GpuResponse::OkNoData => GpuResponseView::OkNoData,
            GpuResponse::OkDisplayInfo(d) => GpuResponseView::OkDisplayInfo(d@),
            GpuResponse::OkEdid(b) => GpuResponseView::OkEdid(b@),
            GpuResponse::OkCapsetInfo {
                capset_id,
                version,
                size,
            } => GpuResponseView::OkCapsetInfo { capset_id, version, size },
            GpuResponse::OkCapset(b) => GpuResponseView::OkCapset(b@),
            GpuResponse::OkResourcePlaneInfo {
                format_modifier,
                plane_info,
            } => GpuResponseView::OkResourcePlaneInfo { format_modifier, plane_info: plane_info@ },
            GpuResponse::OkResourceUuid { uuid } => GpuResponseView::OkResourceUuid { uuid: uuid@ },
            GpuResponse::OkMapInfo { map_info } => GpuResponseView::OkMapInfo { map_info },
            GpuResponse::ErrUnspec => GpuResponseView::ErrUnspec,
            GpuResponse::ErrRutabaga(e) => GpuResponseView::ErrRutabaga(e),
            GpuResponse::ErrDisplay(e) => GpuResponseView::ErrDisplay(e),
            GpuResponse::ErrInvalidScanoutId => GpuResponseView::ErrInvalidScanoutId,
            GpuResponse::ErrInvalidResourceId => GpuResponseView::ErrInvalidResourceId,
            GpuResponse::ErrInvalidContextId => GpuResponseView::ErrInvalidContextId,
            GpuResponse::ErrInvalidParameter => GpuResponseView::ErrInvalidParameter,
        }
    }
}

/// A result by its response.
pub open spec fn result_view(r: VirtioGpuResult) -> Result<GpuResponseView, GpuResponseView> {
    match r {
        Ok(v) => Ok(v@),
        Err(e) => Err(e@),
    }
}

/// The answer to a command that was carried out and has nothing to say.
pub open spec fn plain_ok() -> Result<GpuResponseView, GpuResponseView> {
    Ok(GpuResponseView::OkNoData)
}

} // verus!
