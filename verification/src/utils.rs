//! Pixel-format codes and the conversion between the four-character codes of the
//! graphics stack and the video formats of the media pipeline.

use vstd::prelude::*;

verus! {

pub const DRM_FORMAT_ABGR8888: u32 = 0x3432_4241;
pub const DRM_FORMAT_ARGB8888: u32 = 0x3432_5241;
pub const DRM_FORMAT_BGRA8888: u32 = 0x3432_4142;
pub const DRM_FORMAT_BGRX8888: u32 = 0x3432_5842;
pub const DRM_FORMAT_RGBA8888: u32 = 0x3432_4152;
pub const DRM_FORMAT_RGBX8888: u32 = 0x3432_5852;
pub const DRM_FORMAT_XBGR8888: u32 = 0x3432_4258;
pub const DRM_FORMAT_XRGB8888: u32 = 0x3432_5258;
pub const DRM_FORMAT_NV12: u32 = 0x3231_564e;

/// The layout tag of a buffer that is stored row by row, without tiling.
pub const DRM_FORMAT_MOD_LINEAR: u64 = 0;
/// The layout tag that stands for "no explicit layout".
pub const DRM_FORMAT_MOD_INVALID: u64 = 0x00ff_ffff_ffff_ffff;

/// A pixel format, identified by its four-character code.
#[derive(Clone, Copy, Debug, PartialEq, Eq, Hash, Structural)]
pub struct Fourcc {
    pub code: u32,
}

/// A video format of the media pipeline. Only the packed 32-bit formats have
/// a counterpart among the four-character codes; every other format is `Other`.
#[derive(Clone, Copy, Debug, PartialEq, Eq, Hash, Structural)]
pub enum VideoFormat {
    Abgr,
    Argb,
    Bgra,
    Bgrx,
    Rgba,
    Rgbx,
    Xbgr,
    Xrgb,
    Other,
}

/// The code made of four characters, the first in the lowest byte.
pub open spec fn spec_fourcc_code(a: u8, b: u8, c: u8, d: u8) -> u32 {
    (a as int + 0x100 * (b as int) + 0x1_0000 * (c as int) + 0x100_0000 * (d as int)) as u32
}

pub open spec fn spec_video_format_from_fourcc(format: Fourcc) -> Option<VideoFormat> {
    if format.code == DRM_FORMAT_ABGR8888 {
        Some(VideoFormat::Rgba)
    } else if format.code == DRM_FORMAT_ARGB8888 {
        Some(VideoFormat::Bgra)
    } else if format.code == DRM_FORMAT_BGRA8888 {
        Some(VideoFormat::Argb)
    } else if format.code == DRM_FORMAT_BGRX8888 {
        Some(VideoFormat::Xrgb)
    } else if format.code == DRM_FORMAT_RGBA8888 {
        Some(VideoFormat::Abgr)
    } else if format.code == DRM_FORMAT_RGBX8888 {
        Some(VideoFormat::Xbgr)
    } else if format.code == DRM_FORMAT_XBGR8888 {
        Some(VideoFormat::Rgbx)
    } else if format.code == DRM_FORMAT_XRGB8888 {
        Some(VideoFormat::Bgrx)
    } else {
        None
    }
}

pub open spec fn spec_video_format_to_fourcc(format: VideoFormat) -> Option<Fourcc> {
    match format {
        VideoFormat::Abgr => Some(Fourcc { code: DRM_FORMAT_RGBA8888 }),
        VideoFormat::Argb => Some(Fourcc { code: DRM_FORMAT_BGRA8888 }),
        VideoFormat::Bgra => Some(Fourcc { code: DRM_FORMAT_ARGB8888 }),
        VideoFormat::Bgrx => Some(Fourcc { code: DRM_FORMAT_XRGB8888 }),
        VideoFormat::Rgba => Some(Fourcc { code: DRM_FORMAT_ABGR8888 }),
        VideoFormat::Rgbx => Some(Fourcc { code: DRM_FORMAT_XBGR8888 }),
        VideoFormat::Xbgr => Some(Fourcc { code: DRM_FORMAT_RGBX8888 }),
        VideoFormat::Xrgb => Some(Fourcc { code: DRM_FORMAT_BGRX8888 }),
        VideoFormat::Other => None,
    }
}

/// How many planes a buffer of this format has at most: one for the packed
/// 32-bit formats, two for NV12, and the general limit for every other code.
pub open spec fn spec_plane_count(format: Fourcc) -> nat {
    if spec_video_format_from_fourcc(format).is_some() {
        1
    } else if format.code == DRM_FORMAT_NV12 {
        2
    } else {
        4
    }
}

/// The upper and the lower half of a 64-bit value, as the wire protocol carries them.
pub open spec fn spec_split_u64(value: u64) -> (u32, u32) {
    ((value as int / 0x1_0000_0000) as u32, (value as int % 0x1_0000_0000) as u32)
}

pub open spec fn spec_join_u64(high: u32, low: u32) -> u64 {
    (high as int * 0x1_0000_0000 + low as int) as u64
}

impl Fourcc {
    pub fn new(code: u32) -> (format: Fourcc)
        ensures
            format.code == code,
    {
        Fourcc { code }
    }

    /// Builds the code from its four characters, given as bytes.
    pub fn from_bytes(a: u8, b: u8, c: u8, d: u8) -> (format: Fourcc)
        ensures
            format.code == spec_fourcc_code(a, b, c, d),
    {
        let code: u32 = (a as u32) | ((b as u32) << 8) | ((c as u32) << 16) | ((d as u32) << 24);
        assert(code == (a as u32) + 0x100 * (b as u32) + 0x1_0000 * (c as u32) + 0x100_0000 * (
        d as u32)) by (bit_vector)
            requires
                code == (a as u32) | ((b as u32) << 8) | ((c as u32) << 16) | ((d as u32) << 24),
        ;
        Fourcc { code }
    }

    pub fn code(&self) -> (code: u32)
        ensures
            code == self.code,
    {
        self.code
    }

    /// The number of planes that a buffer of this format may have.
    pub fn plane_count(&self) -> (count: usize)
        ensures
            count == spec_plane_count(*self),
            1 <= count <= 4,
    {
        if gst_video_format_from_drm_fourcc(*self).is_some() {
            1
        } else if self.code == DRM_FORMAT_NV12 {
            2
        } else {
            4
        }
    }
}

/// The video format that stores its pixels as the given four-character code does,
/// or `None` where the media pipeline has no such format.
pub fn gst_video_format_from_drm_fourcc(format: Fourcc) -> (result: Option<VideoFormat>)
    ensures
        result == spec_video_format_from_fourcc(format),
{
    let code = format.code;
    let format = if code == DRM_FORMAT_ABGR8888 {
        VideoFormat::Rgba
    } else if code == DRM_FORMAT_ARGB8888 {
        VideoFormat::Bgra
    } else if code == DRM_FORMAT_BGRA8888 {
        VideoFormat::Argb
    } else if code == DRM_FORMAT_BGRX8888 {
        VideoFormat::Xrgb
    } else if code == DRM_FORMAT_RGBA8888 {
        VideoFormat::Abgr
    } else if code == DRM_FORMAT_RGBX8888 {
        VideoFormat::Xbgr
    } else if code == DRM_FORMAT_XBGR8888 {
        VideoFormat::Rgbx
    } else if code == DRM_FORMAT_XRGB8888 {
        VideoFormat::Bgrx
    } else {
        return None;
    };
    Some(format)
}

/// The four-character code of a video format, or `None` for a format that is
/// not a packed 32-bit one.
pub fn gst_video_format_to_drm_fourcc(format: VideoFormat) -> (result: Option<Fourcc>)
    ensures
        result == spec_video_format_to_fourcc(format),
{
    let code = match format {
        VideoFormat::Abgr => DRM_FORMAT_RGBA8888,
        VideoFormat::Argb => DRM_FORMAT_BGRA8888,
        VideoFormat::Bgra => DRM_FORMAT_ARGB8888,
        VideoFormat::Bgrx => DRM_FORMAT_XRGB8888,
        VideoFormat::Rgba => DRM_FORMAT_ABGR8888,
        VideoFormat::Rgbx => DRM_FORMAT_XBGR8888,
        VideoFormat::Xbgr => DRM_FORMAT_RGBX8888,
        VideoFormat::Xrgb => DRM_FORMAT_BGRX8888,
        VideoFormat::Other => {
            return None;
        },
    };
    Some(Fourcc { code })
}

/// Converting a video format to its code and back gives the format again, and
/// a code that has a video format is the code of that format.
pub proof fn lemma_format_round_trip(format: VideoFormat, fourcc: Fourcc)
    ensures
        spec_video_format_to_fourcc(format) matches Some(code)
            ==> spec_video_format_from_fourcc(code) == Some(format),
        spec_video_format_from_fourcc(fourcc) matches Some(video)
            ==> spec_video_format_to_fourcc(video) == Some(fourcc),
        spec_video_format_to_fourcc(format).is_none() <==> format == VideoFormat::Other,
{
}

/// Splitting a value and joining the halves gives the value again, and so
/// does joining two halves and splitting the result.
pub proof fn lemma_split_join(value: u64, high: u32, low: u32)
    ensures
        spec_join_u64(spec_split_u64(value).0, spec_split_u64(value).1) == value,
        spec_split_u64(spec_join_u64(high, low)) == (high, low),
{
    assert(value as int == (value as int / 0x1_0000_0000) * 0x1_0000_0000 + value as int
        % 0x1_0000_0000);
    assert((high as int * 0x1_0000_0000 + low as int) / 0x1_0000_0000 == high as int
        && (high as int * 0x1_0000_0000 + low as int) % 0x1_0000_0000 == low as int) by (nonlinear_arith)
        requires
            0 <= low < 0x1_0000_0000,
            0 <= high,
    ;
}

/// Splits a 64-bit value into its upper and lower 32 bits.
pub fn split_u64(value: u64) -> (halves: (u32, u32))
    ensures
        halves == spec_split_u64(value),
        spec_join_u64(halves.0, halves.1) == value,
{
    let high: u32 = (value >> 32) as u32;
    let low: u32 = (value & 0xFFFF_FFFF) as u32;
    assert(high == value / 0x1_0000_0000 && low == value % 0x1_0000_0000 && value == high as u64
        * 0x1_0000_0000 + low as u64) by (bit_vector)
        requires
            high == (value >> 32) as u32,
            low == (value & 0xFFFF_FFFF) as u32,
    ;
    (high, low)
}

/// Puts a 64-bit value together from its upper and lower 32 bits.
pub fn join_u64(high: u32, low: u32) -> (value: u64)
    ensures
        value == spec_join_u64(high, low),
        spec_split_u64(value) == (high, low),
{
    let value: u64 = ((high as u64) << 32) | (low as u64);
    assert(value == high as u64 * 0x1_0000_0000 + low as u64 && value / 0x1_0000_0000 == high
        && value % 0x1_0000_0000 == low) by (bit_vector)
        requires
            value == ((high as u64) << 32) | (low as u64),
    ;
    value
}

} // verus!
