//! The description of a video frame in memory, as the media pipeline
//! negotiates it.

use vstd::prelude::*;
use crate::utils::VideoFormat;

verus! {

/// The largest number of planes that a video frame can have.
pub const VIDEO_MAX_PLANES: usize = 4;

/// The format, size and rate of a video stream, and where the planes of one
/// frame lie in memory.
#[derive(Clone, Copy, Debug)]
pub struct VideoInfo {
    pub format: VideoFormat,
    pub width: u32,
    pub height: u32,
    /// The frame rate, as a fraction.
    pub fps_n: i32,
    pub fps_d: i32,
    /// The number of planes; only that many entries of `offset` and `stride` count.
    pub n_planes: u32,
    /// Where each plane starts, in bytes from the start of the frame.
    pub offset: [usize; 4],
    /// The length of one row of each plane, in bytes.
    pub stride: [i32; 4],
    /// The size of one frame, in bytes.
    pub size: usize,
}

/// Extra room around a frame, and the alignment of the rows of each plane. An
/// alignment is a mask: a row length meets it when it has none of its bits.
#[derive(Clone, Copy, Debug)]
pub struct VideoAlignment {
    pub padding_top: u32,
    pub padding_bottom: u32,
    pub padding_left: u32,
    pub padding_right: u32,
    pub stride_align: [u32; 4],
}

/// How memory is to be allocated. The alignment is a mask, as above.
#[derive(Clone, Copy, Debug)]
pub struct AllocationParams {
    pub flags: u32,
    pub align: usize,
    pub prefix: usize,
    pub padding: usize,
}

/// The record that tells a downstream element where the planes of a buffer lie.
#[derive(Clone, Copy, Debug)]
pub struct VideoMeta {
    pub format: VideoFormat,
    pub width: u32,
    pub height: u32,
    pub n_planes: u32,
    pub offset: [usize; 4],
    pub stride: [i32; 4],
}

impl VideoAlignment {
    /// An alignment with the given paddings and row alignments.
    pub fn new(
        padding_top: u32,
        padding_bottom: u32,
        padding_left: u32,
        padding_right: u32,
        stride_align: [u32; 4],
    ) -> (alignment: VideoAlignment)
        ensures
            alignment == (VideoAlignment {
                padding_top,
                padding_bottom,
                padding_left,
                padding_right,
                stride_align,
            }),
    {
        VideoAlignment { padding_top, padding_bottom, padding_left, padding_right, stride_align }
    }
}

impl AllocationParams {
    /// Allocation parameters with the given flags, alignment, prefix and padding.
    pub fn new(flags: u32, align: usize, prefix: usize, padding: usize) -> (params: AllocationParams)
        ensures
            params == (AllocationParams { flags, align, prefix, padding }),
    {
        AllocationParams { flags, align, prefix, padding }
    }
}

impl VideoInfo {
    /// The record of where the planes of a frame of this description lie.
    pub open spec fn spec_video_meta(&self) -> VideoMeta {
        VideoMeta {
            format: self.format,
            width: self.width,
            height: self.height,
            n_planes: self.n_planes,
            offset: self.offset,
            stride: self.stride,
        }
    }

    /// The record of where the planes of a frame of this description lie.
    pub fn video_meta(&self) -> (meta: VideoMeta)
        ensures
            meta == self.spec_video_meta(),
    {
        VideoMeta {
            format: self.format,
            width: self.width,
            height: self.height,
            n_planes: self.n_planes,
            offset: self.offset,
            stride: self.stride,
        }
    }
}

} // verus!
