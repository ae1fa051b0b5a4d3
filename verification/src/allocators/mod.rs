//! The backends that turn a request for buffer memory into file descriptors,
//! and the errors they share.

use vstd::prelude::*;
use crate::dmabuf::BufferDescriptor;
use crate::utils::Fourcc;

pub mod dma_heap;
pub mod gbm;
pub mod memfd;

verus! {

/// Why an allocation failed. Every failure ends the attempt that met it; the
/// allocator itself stays usable.
#[derive(Debug)]
pub enum AllocError {
    /// The device that the memory comes from could not be opened.
    DeviceOpen(String),
    /// The backend could not create the buffer, or created one that the
    /// caller did not ask for.
    BufferCreation(String),
    /// The buffer that came back is smaller than what was asked for.
    SizeMismatch { required: u64, actual: u64 },
}

/// The backend that memory is taken from.
#[derive(Clone, Copy, Debug, PartialEq, Eq, Structural)]
pub enum AllocatorKind {
    /// Buffers of the GPU device.
    Gbm,
    /// Buffers of a kernel heap.
    DmaHeap,
    /// Sealed anonymous memory.
    Memfd,
}

/// The backend to use, given which backends there are and whether the buffers
/// must be shared without a copy. The GPU device comes first, the kernel heap
/// second; sealed anonymous memory comes last and only where a copy will do.
pub open spec fn spec_select_allocator(gpu_device: bool, dma_heap: bool, zero_copy: bool) -> Option<
    AllocatorKind,
> {
    if gpu_device {
        Some(AllocatorKind::Gbm)
    } else if dma_heap {
        Some(AllocatorKind::DmaHeap)
    } else if !zero_copy {
        Some(AllocatorKind::Memfd)
    } else {
        None
    }
}

/// The backend to use; `None` where no backend can serve.
pub fn select_allocator(gpu_device: bool, dma_heap: bool, zero_copy: bool) -> (kind: Option<
    AllocatorKind,
>)
    ensures
        kind == spec_select_allocator(gpu_device, dma_heap, zero_copy),
{
    if gpu_device {
        Some(AllocatorKind::Gbm)
    } else if dma_heap {
        Some(AllocatorKind::DmaHeap)
    } else if !zero_copy {
        Some(AllocatorKind::Memfd)
    } else {
        None
    }
}

/// A backend that creates buffers of a given size and format, and takes back
/// the buffers that are no longer wanted, so that it can close their file
/// descriptors.
pub trait BufferAllocator {
    /// Creates a buffer. `modifiers` lists the layouts that the caller accepts.
    fn create_buffer(
        &mut self,
        width: u32,
        height: u32,
        fourcc: Fourcc,
        modifiers: &Vec<u64>,
    ) -> Result<BufferDescriptor, AllocError>;

    /// Takes back a buffer that this backend created.
    fn destroy_buffer(&mut self, buffer: BufferDescriptor);
}

} // verus!
