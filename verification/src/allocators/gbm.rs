//! The allocator of the GPU device: it asks the device for a buffer of the
//! size and format of the stream, always in the linear layout, and checks
//! that the buffer is large enough.

use vstd::prelude::*;
use crate::allocators::AllocError;
use crate::buffer_pool::Memory;
use crate::utils::{
    gst_video_format_to_drm_fourcc, spec_video_format_to_fourcc, Fourcc, DRM_FORMAT_MOD_LINEAR,
};
use crate::video::VideoInfo;

verus! {

/// The render node that is used where none is named.
pub const DEFAULT_RENDER_NODE: &'static str = "/dev/dri/renderD128";

/// What the allocator is set to.
#[derive(Debug)]
pub struct Settings {
    pub device_path: Option<String>,
    pub fourcc: u32,
    pub width: u32,
    pub height: u32,
}

/// The buffer that the device is asked for.
#[derive(Clone, Copy, Debug, PartialEq, Eq, Structural)]
pub struct BufferRequest {
    pub width: u32,
    pub height: u32,
    pub fourcc: Fourcc,
    /// The layout of the buffer: always the linear one.
    pub modifier: u64,
}

/// The allocator of the GPU device.
#[derive(Debug)]
pub struct GbmMemoryAllocator {
    settings: Settings,
}

/// What the allocator makes of the buffer that the device created for a
/// request of `size` bytes: the device's failure is a failed creation; a
/// buffer that is smaller than what was asked for is a mismatch; any other
/// buffer is one block of memory, as large as the device made it.
pub open spec fn spec_allocated(size: usize, created: Result<(i32, u64), String>) -> Result<
    Seq<Memory>,
    AllocError,
> {
    match created {
        Err(cause) => Err(AllocError::BufferCreation(cause)),
        Ok((fd, actual)) => if actual < size {
            Err(AllocError::SizeMismatch { required: size as u64, actual })
        } else if actual > usize::MAX {
            Err(AllocError::SizeMismatch { required: size as u64, actual })
        } else {
            Ok(seq![Memory { fd: Some(fd), offset: 0, size: actual as usize }])
        },
    }
}

impl GbmMemoryAllocator {
    pub closed spec fn view(&self) -> Settings {
        self.settings
    }

    /// An allocator for the stream, on the device of the given path or, where
    /// none is given, on the default render node. The result is `None` where
    /// the format of the stream has no four-character code.
    pub fn new(device_path: Option<String>, info: &VideoInfo) -> (allocator: Option<
        GbmMemoryAllocator,
    >)
        ensures
            allocator.is_some() == spec_video_format_to_fourcc(info.format).is_some(),
            allocator matches Some(allocator) ==> allocator@ == (Settings {
                device_path,
                fourcc: spec_video_format_to_fourcc(info.format).unwrap().code,
                width: info.width,
                height: info.height,
            }),
    {
        match gst_video_format_to_drm_fourcc(info.format) {
            Some(format) => Some(
                GbmMemoryAllocator {
                    settings: Settings {
                        device_path,
                        fourcc: format.code,
                        width: info.width,
                        height: info.height,
                    },
                },
            ),
            None => None,
        }
    }

    /// The path of the device: the one that was named, or the default render
    /// node.
    pub fn device_path(&self) -> (path: String)
        ensures
            path@ == (match self@.device_path {
                Some(named) => named@,
                None => DEFAULT_RENDER_NODE@,
            }),
    {
        match &self.settings.device_path {
            Some(named) => named.clone(),
            None => DEFAULT_RENDER_NODE.to_owned(),
        }
    }

    /// The buffer to ask the device for.
    pub fn request(&self) -> (request: BufferRequest)
        ensures
            request == (BufferRequest {
                width: self@.width,
                height: self@.height,
                fourcc: Fourcc { code: self@.fourcc },
                modifier: DRM_FORMAT_MOD_LINEAR,
            }),
    {
        BufferRequest {
            width: self.settings.width,
            height: self.settings.height,
            fourcc: Fourcc::new(self.settings.fourcc),
            modifier: DRM_FORMAT_MOD_LINEAR,
        }
    }

    /// Makes the memory of a buffer of what the device created for a request
    /// of `size` bytes: the file descriptor of the buffer and the size that
    /// was measured behind it.
    pub fn allocated(size: usize, created: Result<(i32, u64), String>) -> (result: Result<
        Vec<Memory>,
        AllocError,
    >)
        ensures
            match spec_allocated(size, created) {
                Ok(memories) => result matches Ok(found) && found@ == memories,
                Err(error) => result matches Err(found) && found == error,
            },
    {
        match created {
            Err(cause) => Err(AllocError::BufferCreation(cause)),
            Ok((fd, actual)) => {
                if actual < size as u64 || actual > usize::MAX as u64 {
                    Err(AllocError::SizeMismatch { required: size as u64, actual })
                } else {
                    Ok(vec![Memory { fd: Some(fd), offset: 0, size: actual as usize }])
                }
            },
        }
    }
}

} // verus!
