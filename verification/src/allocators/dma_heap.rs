//! The allocator of the kernel heaps: memory that devices can reach, taken
//! from the first heap that the system has.

use vstd::prelude::*;
use crate::allocators::AllocError;
use crate::buffer_pool::Memory;

verus! {

#[verifier::external_type_specification]
#[verifier::external_body]
pub struct ExHeap(dma_heap::Heap);

/// A kind of kernel heap.
#[derive(Clone, Copy, Debug, PartialEq, Eq, Structural)]
pub enum HeapKind {
    /// Memory that is contiguous for the devices.
    Cma,
    /// Memory that is contiguous for the processor only.
    System,
}

/// The allocator of a kernel heap.
pub struct DmaHeapMemoryAllocator {
    heap: dma_heap::Heap,
    kind: HeapKind,
}

/// What follows an attempt to open a heap.
pub enum Attempt {
    /// The heap was opened: this is its allocator.
    Opened(DmaHeapMemoryAllocator),
    /// The heap could not be opened: the heap of this kind is tried next.
    Next(HeapKind),
    /// The heap could not be opened and no other is left to try.
    Failed(AllocError),
}

/// The heap to use, given which heaps there are: the contiguous one first.
pub open spec fn spec_preferred_heap(cma: bool, system: bool) -> Option<HeapKind> {
    if cma {
        Some(HeapKind::Cma)
    } else if system {
        Some(HeapKind::System)
    } else {
        None
    }
}

/// The kind of heap that is tried first.
pub open spec fn spec_first_heap() -> HeapKind {
    HeapKind::Cma
}

/// The kind of heap that is tried where a heap of the given kind cannot be
/// opened, if any is left.
pub open spec fn spec_heap_after(kind: HeapKind) -> Option<HeapKind> {
    match kind {
        HeapKind::Cma => Some(HeapKind::System),
        HeapKind::System => None,
    }
}

/// How many kinds of heap are left to try, the given one included.
pub open spec fn spec_heaps_left(kind: HeapKind) -> nat {
    match kind {
        HeapKind::Cma => 2,
        HeapKind::System => 1,
    }
}

/// Whether there is a heap of the given kind, given which heaps there are.
pub open spec fn spec_has_heap(kind: HeapKind, cma: bool, system: bool) -> bool {
    match kind {
        HeapKind::Cma => cma,
        HeapKind::System => system,
    }
}

/// The heap that is opened when the heaps are tried one after the other,
/// from the given kind on, each only where the one before it is not there.
pub open spec fn spec_first_opened(from: HeapKind, cma: bool, system: bool) -> Option<HeapKind>
    decreases spec_heaps_left(from),
{
    if spec_has_heap(from, cma, system) {
        Some(from)
    } else {
        match spec_heap_after(from) {
            Some(next) => spec_first_opened(next, cma, system),
            None => None,
        }
    }
}

/// Trying the heaps in their order opens the preferred heap: the contiguous
/// one where it is there, the other only where the contiguous one is not,
/// and none where neither is.
pub proof fn lemma_order_opens_preferred(cma: bool, system: bool)
    ensures
        spec_first_opened(spec_first_heap(), cma, system) == spec_preferred_heap(cma, system),
        spec_first_opened(spec_first_heap(), cma, system).is_some() == (cma || system),
{
    reveal_with_fuel(spec_first_opened, 3);
}

/// Calls `dma_heap::Heap::new` with the kind of heap. Nothing is claimed of
/// the outcome: it tells whether the system has the heap. An error is handed
/// on as its text.
#[verifier::external_body]
fn open_heap(kind: HeapKind) -> Result<dma_heap::Heap, String> {
    let kind = match kind {
        HeapKind::Cma => dma_heap::HeapKind::Cma,
        HeapKind::System => dma_heap::HeapKind::System,
    };
    dma_heap::Heap::new(kind).map_err(|error| format!("{}", error))
}

/// The heap to use, given which heaps there are.
pub fn preferred_heap(cma: bool, system: bool) -> (kind: Option<HeapKind>)
    ensures
        kind == spec_preferred_heap(cma, system),
{
    if cma {
        Some(HeapKind::Cma)
    } else if system {
        Some(HeapKind::System)
    } else {
        None
    }
}

impl DmaHeapMemoryAllocator {
    /// The kind of the heap.
    pub closed spec fn spec_kind(&self) -> HeapKind {
        self.kind
    }

    /// Whether the system has a heap to allocate from. The heaps are tried
    /// as `new` tries them; what the answer is depends on the system alone.
    pub fn is_available() -> bool {
        Self::new().is_ok()
    }

    /// Opens the first heap that the system has. The heaps are tried in
    /// their order: the attempts start with `first_heap`, and `after_attempt`
    /// says after each what follows. The error is the system's word on the
    /// heap tried last.
    pub fn new() -> (allocator: Result<DmaHeapMemoryAllocator, AllocError>)
        ensures
            allocator matches Err(error) ==> error is DeviceOpen,
    {
        let mut kind = Self::first_heap();
        loop
            decreases spec_heaps_left(kind),
        {
            match Self::after_attempt(kind, open_heap(kind)) {
                Attempt::Opened(allocator) => {
                    return Ok(allocator);
                },
                Attempt::Next(next) => {
                    kind = next;
                },
                Attempt::Failed(error) => {
                    return Err(error);
                },
            }
        }
    }

    /// The kind of the heap.
    pub fn kind(&self) -> (kind: HeapKind)
        ensures
            kind == self.spec_kind(),
    {
        self.kind
    }

    /// The heap itself, to allocate from.
    pub fn heap(&self) -> (heap: &dma_heap::Heap)
        ensures
            *heap == self.spec_heap(),
    {
        &self.heap
    }

    /// The heap that the allocator holds.
    pub closed spec fn spec_heap(&self) -> dma_heap::Heap {
        self.heap
    }

    /// The kind of heap that is tried first: the contiguous one.
    pub fn first_heap() -> (kind: HeapKind)
        ensures
            kind == spec_first_heap(),
    {
        HeapKind::Cma
    }

    /// What follows an attempt to open a heap of the given kind, given its
    /// outcome. A heap that was opened is the one to allocate from, and no
    /// other is tried. Where it was not, the kind that comes after it is
    /// tried next; where none comes after it, the attempts have failed, with
    /// the system's words on this last one.
    pub fn after_attempt(kind: HeapKind, outcome: Result<dma_heap::Heap, String>) -> (next: Attempt)
        ensures
            match outcome {
                Ok(heap) => next matches Attempt::Opened(made) && made.spec_kind() == kind
                    && made.spec_heap() == heap,
                Err(cause) => match spec_heap_after(kind) {
                    Some(other) => next matches Attempt::Next(following) && following == other,
                    None => next matches Attempt::Failed(AllocError::DeviceOpen(text)) && text
                        == cause,
                },
            },
    {
        match Self::opened(kind, outcome) {
            Ok(allocator) => Attempt::Opened(allocator),
            Err(error) => match kind {
                HeapKind::Cma => Attempt::Next(HeapKind::System),
                HeapKind::System => Attempt::Failed(error),
            },
        }
    }

    /// Makes an allocator of the outcome of opening a heap of the given
    /// kind: the allocator of that heap, or the failure to open the device
    /// with the system's words.
    pub fn opened(kind: HeapKind, outcome: Result<dma_heap::Heap, String>) -> (allocator: Result<
        DmaHeapMemoryAllocator,
        AllocError,
    >)
        ensures
            match outcome {
                Ok(heap) => allocator matches Ok(made) && made.spec_kind() == kind
                    && made.spec_heap() == heap,
                Err(cause) => allocator matches Err(AllocError::DeviceOpen(text)) && text == cause,
            },
    {
        match outcome {
            Ok(heap) => Ok(DmaHeapMemoryAllocator { heap, kind }),
            Err(cause) => Err(AllocError::DeviceOpen(cause)),
        }
    }

    /// Makes the memory of a buffer of what the heap returned for a request
    /// of `size` bytes: one block behind one file descriptor. A failure of
    /// the heap is a failed creation.
    pub fn allocated(size: usize, returned: Result<i32, String>) -> (result: Result<
        Vec<Memory>,
        AllocError,
    >)
        ensures
            match returned {
                Ok(fd) => result matches Ok(memories) && memories@ == seq![
                    Memory { fd: Some(fd), offset: 0, size },
                ],
                Err(cause) => result matches Err(AllocError::BufferCreation(text)) && text == cause,
            },
    {
        match returned {
            Ok(fd) => Ok(vec![Memory { fd: Some(fd), offset: 0, size }]),
            Err(cause) => Err(AllocError::BufferCreation(cause)),
        }
    }
}

} // verus!
