//! The allocator of sealed anonymous memory: memory that is created, sized
//! once, and then sealed so that it can never change its size again. It is
//! the backend of last resort, for buffers that are filled by a copy.

use vstd::prelude::*;
use crate::allocators::AllocError;

verus! {

#[verifier::external_type_specification]
#[verifier::external_body]
pub struct ExMemfd(memfd::Memfd);

/// The name under which the memory shows up in the listings of the system.
pub const MEMORY_NAME: &'static str = "gst-shm-memory-allocator";

/// The seals of a piece of sealed memory, as the system reports them.
#[derive(Clone, Copy, Debug, PartialEq, Eq, Structural)]
pub struct Seals {
    /// The memory cannot shrink.
    pub shrink: bool,
    /// The memory cannot grow.
    pub grow: bool,
    /// The memory cannot be written.
    pub write: bool,
    /// The seals cannot be changed.
    pub seal: bool,
    /// The memory cannot be written but through mappings that exist.
    pub future_write: bool,
}

/// A buffer of sealed anonymous memory.
pub struct SealedMemory {
    memfd: memfd::Memfd,
    size: usize,
    seals: Seals,
}

/// The allocator of sealed anonymous memory.
#[derive(Clone, Copy, Debug)]
pub struct MemfdMemoryAllocator {
    allow_sealing: bool,
    close_on_exec: bool,
}

/// Whether seals keep the memory from shrinking for good: the memory cannot
/// shrink, and the seals cannot be changed.
pub open spec fn spec_sealed(seals: Seals) -> bool {
    seals.shrink && seals.seal
}

/// Calls `memfd::MemfdOptions::create` with the given name, on options that
/// allow sealing and close the memory on exec as told. Nothing is claimed of
/// the outcome: it is the system's. An error is handed on as its text.
#[verifier::external_body]
fn create_memfd(name: &str, allow_sealing: bool, close_on_exec: bool) -> Result<
    memfd::Memfd,
    String,
> {
    memfd::MemfdOptions::default()
        .allow_sealing(allow_sealing)
        .close_on_exec(close_on_exec)
        .create(name)
        .map_err(|error| format!("{}", error))
}

/// Calls `set_len` on the file behind `memfd::Memfd::as_file`. Nothing is
/// claimed of the outcome. An error is handed on as its text.
#[verifier::external_body]
fn set_len(memory: &memfd::Memfd, size: u64) -> Result<(), String> {
    memory.as_file().set_len(size).map_err(|error| format!("{}", error))
}

/// Calls `memfd::Memfd::add_seals` with the seal against shrinking. Nothing
/// is claimed of the outcome. An error is handed on as its text.
#[verifier::external_body]
fn add_shrink_seal(memory: &memfd::Memfd) -> Result<(), String> {
    memory.add_seals(&[memfd::FileSeal::SealShrink]).map_err(|error| format!("{}", error))
}

/// Calls `memfd::Memfd::add_seal` with the seal against changes of the
/// seals. Nothing is claimed of the outcome. An error is handed on as its text.
#[verifier::external_body]
fn add_seal_seal(memory: &memfd::Memfd) -> Result<(), String> {
    memory.add_seal(memfd::FileSeal::SealSeal).map_err(|error| format!("{}", error))
}

/// Calls `memfd::Memfd::seals` and tells, for each seal, whether the set that
/// came back holds it. Nothing is claimed of the outcome. An error is handed
/// on as its text.
#[verifier::external_body]
fn read_seals(memory: &memfd::Memfd) -> Result<Seals, String> {
    let set = memory.seals().map_err(|error| format!("{}", error))?;
    Ok(
        Seals {
            shrink: set.contains(&memfd::FileSeal::SealShrink),
            grow: set.contains(&memfd::FileSeal::SealGrow),
            write: set.contains(&memfd::FileSeal::SealWrite),
            seal: set.contains(&memfd::FileSeal::SealSeal),
            future_write: set.contains(&memfd::FileSeal::SealFutureWrite),
        },
    )
}

impl SealedMemory {
    /// The size of the memory, in bytes.
    pub closed spec fn spec_size(&self) -> usize {
        self.size
    }

    /// The seals that the system reported when the memory was handed out.
    pub closed spec fn spec_seals(&self) -> Seals {
        self.seals
    }

    #[verifier::type_invariant]
    closed spec fn inv(&self) -> bool {
        spec_sealed(self.seals)
    }

    /// The size of the memory, in bytes.
    pub fn size(&self) -> (size: usize)
        ensures
            size == self.spec_size(),
    {
        self.size
    }

    /// The seals that the system reported when the memory was handed out.
    /// They keep the memory from shrinking for good.
    pub fn seals(&self) -> (seals: Seals)
        ensures
            seals == self.spec_seals(),
            spec_sealed(seals),
    {
        proof {
            use_type_invariant(self);
        }
        self.seals
    }

    /// The memory itself.
    pub fn memfd(&self) -> (memfd: &memfd::Memfd)
        ensures
            *memfd == self.spec_memfd(),
    {
        &self.memfd
    }

    /// Gives the memory up to its new owner.
    pub fn into_memfd(self) -> (memfd: memfd::Memfd)
        ensures
            memfd == self.spec_memfd(),
    {
        self.memfd
    }

    /// Makes a buffer of memory that was created, sized and sealed, given
    /// what the system reported of its seals. The memory is refused, as a
    /// failed creation, where the seals could not be read or do not keep it
    /// from shrinking for good.
    pub fn checked(memfd: memfd::Memfd, size: usize, reported: Result<Seals, String>) -> (result:
        Result<SealedMemory, AllocError>)
        ensures
            result.is_ok() == (reported matches Ok(seals) && spec_sealed(seals)),
            result matches Ok(memory) ==> memory.spec_size() == size && Ok::<Seals, String>(
                memory.spec_seals(),
            ) == reported && memory.spec_memfd() == memfd,
            result matches Err(error) ==> error is BufferCreation,
    {
        match reported {
            Ok(seals) => {
                if seals.shrink && seals.seal {
                    Ok(SealedMemory { memfd, size, seals })
                } else {
                    Err(AllocError::BufferCreation("the memory is not sealed".to_owned()))
                }
            },
            Err(cause) => Err(AllocError::BufferCreation(cause)),
        }
    }

    /// The memory that the buffer holds.
    pub closed spec fn spec_memfd(&self) -> memfd::Memfd {
        self.memfd
    }
}

impl MemfdMemoryAllocator {
    /// An allocator whose memory can be sealed and is closed on exec.
    pub fn new() -> (allocator: MemfdMemoryAllocator)
        ensures
            allocator.allows_sealing(),
            allocator.closes_on_exec(),
    {
        MemfdMemoryAllocator { allow_sealing: true, close_on_exec: true }
    }

    /// Whether the memory of this allocator can be sealed.
    pub closed spec fn allows_sealing(&self) -> bool {
        self.allow_sealing
    }

    /// Whether the memory of this allocator is closed where the process
    /// starts another program.
    pub closed spec fn closes_on_exec(&self) -> bool {
        self.close_on_exec
    }

    /// Creates sealed memory of the given size: the memory is created, sized,
    /// sealed against shrinking and against any change of its seals, and its
    /// seals are then read back. Whether that succeeds is up to the system;
    /// every step that fails is reported as a failed creation, with the
    /// system's words. Memory that is handed out has the size that was asked
    /// for, and seals that keep it from shrinking for good.
    pub fn allocate(&self, size: usize) -> (result: Result<SealedMemory, AllocError>)
        ensures
            result matches Ok(memory) ==> memory.spec_size() == size && spec_sealed(
                memory.spec_seals(),
            ),
            result matches Err(error) ==> error is BufferCreation,
    {
        let memory = match create_memfd(MEMORY_NAME, self.allow_sealing, self.close_on_exec) {
            Ok(memory) => memory,
            Err(cause) => {
                return Err(AllocError::BufferCreation(cause));
            },
        };
        match set_len(&memory, size as u64) {
            Ok(()) => {},
            Err(cause) => {
                return Err(AllocError::BufferCreation(cause));
            },
        }
        match add_shrink_seal(&memory) {
            Ok(()) => {},
            Err(cause) => {
                return Err(AllocError::BufferCreation(cause));
            },
        }
        match add_seal_seal(&memory) {
            Ok(()) => {},
            Err(cause) => {
                return Err(AllocError::BufferCreation(cause));
            },
        }
        let reported = read_seals(&memory);
        SealedMemory::checked(memory, size, reported)
    }
}

} // verus!
