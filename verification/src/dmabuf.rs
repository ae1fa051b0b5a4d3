//! The buffer descriptor: an immutable description of a multi-planar GPU
//! buffer, with one file descriptor, offset and stride per plane.
//!
//! A descriptor owns its file descriptors. It cannot be cloned: a second owner
//! of the same memory is made by `duplicate`, which takes freshly duplicated
//! file descriptors and leaves the source untouched.

use vstd::prelude::*;
use crate::utils::{
    spec_plane_count, spec_video_format_from_fourcc, Fourcc, gst_video_format_from_drm_fourcc,
    DRM_FORMAT_MOD_INVALID, DRM_FORMAT_MOD_LINEAR,
};

verus! {

/// The largest number of planes that a descriptor can hold.
pub const MAX_PLANES: usize = 4;

/// The buffer content is stored upside down.
pub const FLAG_Y_INVERT: u32 = 1;
/// The buffer content is interlaced.
pub const FLAG_INTERLACED: u32 = 2;
/// The buffer content, if interlaced, has its bottom field first.
pub const FLAG_BOTTOM_FIRST: u32 = 4;

/// One plane of a buffer.
#[derive(Clone, Copy, Debug, PartialEq, Eq, Structural)]
pub struct Plane {
    /// The file descriptor that holds the plane's memory.
    pub fd: i32,
    /// The index of the plane within the format.
    pub plane_idx: u32,
    /// Where the plane starts, in bytes from the start of the file descriptor.
    pub offset: u32,
    /// The length of one row of the plane, in bytes.
    pub stride: u32,
}

/// The flags of a buffer. Only the three known bits can be set.
#[derive(Clone, Copy, Debug, PartialEq, Eq, Structural)]
pub struct DmabufFlags {
    bits: u32,
}

/// What a descriptor is, as a mathematical value.
pub struct DescriptorView {
    pub id: u64,
    pub width: u32,
    pub height: u32,
    pub format: Fourcc,
    pub modifier: u64,
    pub flags: u32,
    pub planes: Seq<Plane>,
}

/// A reference to a descriptor that carries its identity and owns nothing.
#[derive(Clone, Copy, Debug, PartialEq, Eq, Structural)]
pub struct WeakDescriptor {
    pub id: u64,
}

/// A finished buffer descriptor.
#[derive(Debug)]
pub struct BufferDescriptor {
    id: u64,
    width: u32,
    height: u32,
    format: Fourcc,
    modifier: u64,
    flags: DmabufFlags,
    planes: Vec<Plane>,
}

/// A descriptor under construction.
#[derive(Debug)]
pub struct DescriptorBuilder {
    id: u64,
    width: u32,
    height: u32,
    format: Fourcc,
    modifier: u64,
    flags: DmabufFlags,
    planes: Vec<Plane>,
}

/// The three known flag bits of a raw value; every other bit is dropped.
pub open spec fn spec_known_flags(bits: u32) -> u32 {
    bits & 7
}

/// The planes are ordered by their plane index; planes of one index keep the
/// order in which they were added.
pub open spec fn spec_planes_sorted(planes: Seq<Plane>) -> bool {
    forall|i: int, j: int| 0 <= i < j < planes.len() ==> planes[i].plane_idx <= planes[j].plane_idx
}

/// Every file descriptor is a valid handle, and none occurs twice: each is
/// owned exactly once.
pub open spec fn spec_fds_owned_once(planes: Seq<Plane>) -> bool {
    &&& forall|i: int| 0 <= i < planes.len() ==> (#[trigger] planes[i]).fd >= 0
    &&& forall|i: int, j: int| 0 <= i < j < planes.len() ==> planes[i].fd != planes[j].fd
}

/// Whether some plane holds the file descriptor.
pub open spec fn spec_holds_fd(planes: Seq<Plane>, fd: i32) -> bool {
    exists|i: int| 0 <= i < planes.len() && (#[trigger] planes[i]).fd == fd
}

/// The least stride that a plane of the format can have at the given width:
/// four bytes per pixel for the packed 32-bit formats, and no bound for the
/// formats whose layout this library does not know.
pub open spec fn spec_min_stride(format: Fourcc, width: u32) -> int {
    if spec_video_format_from_fourcc(format).is_some() {
        4 * width
    } else {
        0
    }
}

/// Every plane has a row that is long enough for the format and the width.
pub open spec fn spec_strides_fit(format: Fourcc, width: u32, planes: Seq<Plane>) -> bool {
    forall|i: int|
        0 <= i < planes.len() ==> (#[trigger] planes[i]).stride >= spec_min_stride(format, width)
}

/// Where a plane of the given index goes: behind the leading planes whose
/// index is not greater.
pub open spec fn spec_insert_position(planes: Seq<Plane>, idx: u32) -> int
    decreases planes.len(),
{
    if planes.len() == 0 || planes[0].plane_idx > idx {
        0
    } else {
        1 + spec_insert_position(planes.subrange(1, planes.len() as int), idx)
    }
}

/// The planes after one more was added.
pub open spec fn spec_with_plane(planes: Seq<Plane>, plane: Plane) -> Seq<Plane> {
    planes.insert(spec_insert_position(planes, plane.plane_idx), plane)
}

/// The planes with their file descriptors replaced, one for one.
pub open spec fn spec_with_fds(planes: Seq<Plane>, fds: Seq<i32>) -> Seq<Plane> {
    Seq::new(
        planes.len(),
        |i: int|
            Plane {
                fd: fds[i],
                plane_idx: planes[i].plane_idx,
                offset: planes[i].offset,
                stride: planes[i].stride,
            },
    )
}

/// Whether a list of file descriptors can take the place of those of the
/// planes: one valid handle per plane, none twice, none that a plane holds.
pub open spec fn spec_fresh_fds(planes: Seq<Plane>, fds: Seq<i32>) -> bool {
    &&& fds.len() == planes.len()
    &&& forall|i: int| 0 <= i < fds.len() ==> #[trigger] fds[i] >= 0
    &&& forall|i: int, j: int| 0 <= i < j < fds.len() ==> fds[i] != fds[j]
    &&& forall|i: int| 0 <= i < fds.len() ==> !spec_holds_fd(planes, #[trigger] fds[i])
}

impl DescriptorView {
    /// The invariant of a buffer descriptor.
    pub open spec fn wf(self) -> bool {
        &&& 1 <= self.planes.len() <= spec_plane_count(self.format)
        &&& spec_planes_sorted(self.planes)
        &&& spec_fds_owned_once(self.planes)
        &&& spec_strides_fit(self.format, self.width, self.planes)
        &&& self.flags == spec_known_flags(self.flags)
    }

    /// The invariant of a descriptor under construction.
    pub open spec fn wf_partial(self) -> bool {
        &&& self.planes.len() <= MAX_PLANES
        &&& spec_planes_sorted(self.planes)
        &&& spec_fds_owned_once(self.planes)
        &&& self.flags == spec_known_flags(self.flags)
    }
}

proof fn lemma_known_flags(bits: u32)
    ensures
        spec_known_flags(spec_known_flags(bits)) == spec_known_flags(bits),
        spec_known_flags(bits) <= 7,
        spec_known_flags(0) == 0,
{
    assert((bits & 7) & 7 == bits & 7 && bits & 7 <= 7 && 0u32 & 7 == 0) by (bit_vector);
}

/// The insert position lies within the planes; the planes before it have an
/// index that is not greater, and the plane at it, if any, has a greater one.
proof fn lemma_insert_position(planes: Seq<Plane>, idx: u32)
    ensures
        0 <= spec_insert_position(planes, idx) <= planes.len(),
        forall|i: int|
            0 <= i < spec_insert_position(planes, idx) ==> (#[trigger] planes[i]).plane_idx <= idx,
        spec_insert_position(planes, idx) < planes.len() ==> planes[spec_insert_position(
            planes,
            idx,
        )].plane_idx > idx,
    decreases planes.len(),
{
    if planes.len() == 0 || planes[0].plane_idx > idx {
    } else {
        let rest = planes.subrange(1, planes.len() as int);
        lemma_insert_position(rest, idx);
        let k = spec_insert_position(rest, idx);
        assert forall|i: int| 0 <= i < 1 + k implies (#[trigger] planes[i]).plane_idx <= idx by {
            if i > 0 {
                assert(planes[i] == rest[i - 1]);
            }
        }
        if 1 + k < planes.len() {
            assert(planes[1 + k] == rest[k]);
        }
    }
}

/// Adding a plane with a new, valid file descriptor keeps the planes ordered
/// and their file descriptors owned once.
proof fn lemma_with_plane(planes: Seq<Plane>, plane: Plane)
    requires
        spec_planes_sorted(planes),
        spec_fds_owned_once(planes),
        plane.fd >= 0,
        !spec_holds_fd(planes, plane.fd),
    ensures
        spec_planes_sorted(spec_with_plane(planes, plane)),
        spec_fds_owned_once(spec_with_plane(planes, plane)),
        spec_with_plane(planes, plane).len() == planes.len() + 1,
{
    lemma_insert_position(planes, plane.plane_idx);
    let k = spec_insert_position(planes, plane.plane_idx);
    let after = spec_with_plane(planes, plane);
    assert forall|i: int, j: int| 0 <= i < j < after.len() implies after[i].plane_idx
        <= after[j].plane_idx by {
        if j < k {
        } else if j == k {
        } else if i < k {
            assert(after[j] == planes[j - 1]);
            assert(planes[i].plane_idx <= plane.plane_idx);
            if j - 1 > k {
                assert(planes[k].plane_idx <= planes[j - 1].plane_idx);
            }
        } else if i == k {
            assert(after[j] == planes[j - 1]);
            if j - 1 > k {
                assert(planes[k].plane_idx <= planes[j - 1].plane_idx);
            }
        } else {
            assert(after[i] == planes[i - 1]);
            assert(after[j] == planes[j - 1]);
        }
    }
    assert forall|i: int| 0 <= i < after.len() implies (#[trigger] after[i]).fd >= 0 by {
        if i < k {
        } else if i == k {
        } else {
            assert(after[i] == planes[i - 1]);
        }
    }
    assert forall|i: int, j: int| 0 <= i < j < after.len() implies after[i].fd != after[j].fd by {
        let pi = if i < k { i } else { i - 1 };
        let pj = if j < k { j } else { j - 1 };
        if i != k {
            assert(after[i] == planes[pi]);
        }
        if j != k {
            assert(after[j] == planes[pj]);
        }
    }
}

/// A plane whose index is not less than that of any plane so far goes behind
/// the last.
pub proof fn lemma_with_plane_appends(planes: Seq<Plane>, plane: Plane)
    requires
        forall|i: int| 0 <= i < planes.len() ==> (#[trigger] planes[i]).plane_idx <= plane.plane_idx,
    ensures
        spec_with_plane(planes, plane) == planes.push(plane),
    decreases planes.len(),
{
    lemma_insert_position(planes, plane.plane_idx);
    let position = spec_insert_position(planes, plane.plane_idx);
    if position < planes.len() {
        assert(planes[position].plane_idx <= plane.plane_idx);
    }
    assert(planes.insert(planes.len() as int, plane) =~= planes.push(plane));
}

impl DmabufFlags {
    pub closed spec fn view(&self) -> u32 {
        self.bits
    }

    #[verifier::type_invariant]
    closed spec fn inv(&self) -> bool {
        self.bits == spec_known_flags(self.bits)
    }

    /// No flag set.
    pub fn empty() -> (flags: DmabufFlags)
        ensures
            flags@ == 0,
    {
        proof {
            lemma_known_flags(0);
        }
        DmabufFlags { bits: 0 }
    }

    /// The flags of a raw value; bits that are no known flag are dropped.
    pub fn from_bits_truncate(bits: u32) -> (flags: DmabufFlags)
        ensures
            flags@ == spec_known_flags(bits),
    {
        proof {
            lemma_known_flags(bits);
        }
        DmabufFlags { bits: bits & 7 }
    }

    pub fn bits(&self) -> (bits: u32)
        ensures
            bits == self@,
            bits == spec_known_flags(bits),
    {
        proof {
            use_type_invariant(self);
        }
        self.bits
    }

    /// Whether the content is stored upside down.
    pub fn y_inverted(&self) -> (inverted: bool)
        ensures
            inverted == (self@ & FLAG_Y_INVERT != 0),
    {
        self.bits & FLAG_Y_INVERT != 0
    }
}

impl BufferDescriptor {
    pub closed spec fn view(&self) -> DescriptorView {
        DescriptorView {
            id: self.id,
            width: self.width,
            height: self.height,
            format: self.format,
            modifier: self.modifier,
            flags: self.flags@,
            planes: self.planes@,
        }
    }

    /// The invariant that every descriptor meets.
    pub open spec fn wf(&self) -> bool {
        self@.wf()
    }

    #[verifier::type_invariant]
    closed spec fn inv(&self) -> bool {
        self.wf()
    }

    /// Starts a descriptor of the given identity, size, format, layout and flags.
    pub fn builder(
        id: u64,
        width: u32,
        height: u32,
        format: Fourcc,
        modifier: u64,
        flags: DmabufFlags,
    ) -> (builder: DescriptorBuilder)
        ensures
            builder@ == (DescriptorView {
                id,
                width,
                height,
                format,
                modifier,
                flags: flags@,
                planes: Seq::empty(),
            }),
    {
        let bits = flags.bits();
        DescriptorBuilder { id, width, height, format, modifier, flags, planes: Vec::new() }
    }

    /// The identity of the memory that the descriptor stands for. A duplicate
    /// has the identity of its source.
    pub fn id(&self) -> (id: u64)
        ensures
            id == self@.id,
            self.wf(),
    {
        proof {
            use_type_invariant(self);
        }
        self.id
    }

    pub fn width(&self) -> (width: u32)
        ensures
            width == self@.width,
            self.wf(),
    {
        proof {
            use_type_invariant(self);
        }
        self.width
    }

    pub fn height(&self) -> (height: u32)
        ensures
            height == self@.height,
            self.wf(),
    {
        proof {
            use_type_invariant(self);
        }
        self.height
    }

    pub fn format(&self) -> (format: Fourcc)
        ensures
            format == self@.format,
            self.wf(),
    {
        proof {
            use_type_invariant(self);
        }
        self.format
    }

    pub fn modifier(&self) -> (modifier: u64)
        ensures
            modifier == self@.modifier,
            self.wf(),
    {
        proof {
            use_type_invariant(self);
        }
        self.modifier
    }

    pub fn flags(&self) -> (flags: DmabufFlags)
        ensures
            flags@ == self@.flags,
            self.wf(),
    {
        proof {
            use_type_invariant(self);
        }
        self.flags
    }

    /// The number of planes: at least one, and no more than the format has.
    pub fn num_planes(&self) -> (count: usize)
        ensures
            count == self@.planes.len(),
            1 <= count <= MAX_PLANES,
            self.wf(),
    {
        proof {
            use_type_invariant(self);
        }
        self.planes.len()
    }

    /// The plane at a position, or `None` behind the last plane.
    pub fn plane(&self, index: usize) -> (plane: Option<Plane>)
        ensures
            self.wf(),
            index < self@.planes.len() ==> plane == Some(self@.planes[index as int]),
            index >= self@.planes.len() ==> plane.is_none(),
    {
        proof {
            use_type_invariant(self);
        }
        if index < self.planes.len() {
            Some(self.planes[index])
        } else {
            None
        }
    }

    /// The file descriptors of the planes, in the order of the planes. They
    /// stay owned by the descriptor.
    pub fn handles(&self) -> (fds: Vec<i32>)
        ensures
            fds@ == self@.planes.map_values(|p: Plane| p.fd),
    {
        let mut fds: Vec<i32> = Vec::new();
        let mut i: usize = 0;
        while i < self.planes.len()
            invariant
                i <= self.planes.len(),
                fds@ == self.planes@.subrange(0, i as int).map_values(|p: Plane| p.fd),
            decreases self.planes.len() - i,
        {
            fds.push(self.planes[i].fd);
            i += 1;
            assert(self.planes@.subrange(0, i as int) == self.planes@.subrange(
                0,
                i as int - 1,
            ).push(self.planes@[i as int - 1]));
        }
        assert(self.planes@.subrange(0, i as int) == self.planes@);
        fds
    }

    /// The offsets of the planes, in the order of the planes.
    pub fn offsets(&self) -> (offsets: Vec<u32>)
        ensures
            offsets@ == self@.planes.map_values(|p: Plane| p.offset),
    {
        let mut offsets: Vec<u32> = Vec::new();
        let mut i: usize = 0;
        while i < self.planes.len()
            invariant
                i <= self.planes.len(),
                offsets@ == self.planes@.subrange(0, i as int).map_values(|p: Plane| p.offset),
            decreases self.planes.len() - i,
        {
            offsets.push(self.planes[i].offset);
            i += 1;
            assert(self.planes@.subrange(0, i as int) == self.planes@.subrange(
                0,
                i as int - 1,
            ).push(self.planes@[i as int - 1]));
        }
        assert(self.planes@.subrange(0, i as int) == self.planes@);
        offsets
    }

    /// The strides of the planes, in the order of the planes.
    pub fn strides(&self) -> (strides: Vec<u32>)
        ensures
            strides@ == self@.planes.map_values(|p: Plane| p.stride),
    {
        let mut strides: Vec<u32> = Vec::new();
        let mut i: usize = 0;
        while i < self.planes.len()
            invariant
                i <= self.planes.len(),
                strides@ == self.planes@.subrange(0, i as int).map_values(|p: Plane| p.stride),
            decreases self.planes.len() - i,
        {
            strides.push(self.planes[i].stride);
            i += 1;
            assert(self.planes@.subrange(0, i as int) == self.planes@.subrange(
                0,
                i as int - 1,
            ).push(self.planes@[i as int - 1]));
        }
        assert(self.planes@.subrange(0, i as int) == self.planes@);
        strides
    }

    /// Whether the layout is one of a vendor, neither linear nor left open.
    pub fn has_modifier(&self) -> (vendor: bool)
        ensures
            vendor == (self@.modifier != DRM_FORMAT_MOD_INVALID && self@.modifier
                != DRM_FORMAT_MOD_LINEAR),
    {
        self.modifier != DRM_FORMAT_MOD_INVALID && self.modifier != DRM_FORMAT_MOD_LINEAR
    }

    /// Whether the content is stored upside down.
    pub fn y_inverted(&self) -> (inverted: bool)
        ensures
            inverted == (self@.flags & FLAG_Y_INVERT != 0),
    {
        self.flags.y_inverted()
    }

    /// A reference that tells this descriptor from others and owns nothing.
    pub fn weak(&self) -> (weak: WeakDescriptor)
        ensures
            weak.id == self@.id,
    {
        WeakDescriptor { id: self.id }
    }

    /// Whether one of the planes holds the file descriptor.
    pub fn holds_fd(&self, fd: i32) -> (held: bool)
        ensures
            held == spec_holds_fd(self@.planes, fd),
    {
        holds_fd(&self.planes, fd)
    }

    /// Gives the descriptor up. The result lists the file descriptors that
    /// it owned, each once: they are the caller's to close.
    pub fn into_fds(self) -> (fds: Vec<i32>)
        ensures
            fds@ == self@.planes.map_values(|p: Plane| p.fd),
            fds@.no_duplicates(),
            forall|i: int| 0 <= i < fds@.len() ==> #[trigger] fds@[i] >= 0,
    {
        proof {
            use_type_invariant(&self);
        }
        let fds = self.handles();
        proof {
            assert forall|i: int, j: int| 0 <= i < fds@.len() && 0 <= j < fds@.len() && i
                != j implies fds@[i] != fds@[j] by {
                assert(fds@[i] == self@.planes[i].fd);
                assert(fds@[j] == self@.planes[j].fd);
                if i < j {
                    assert(self@.planes[i].fd != self@.planes[j].fd);
                } else {
                    assert(self@.planes[j].fd != self@.planes[i].fd);
                }
            }
            assert forall|i: int| 0 <= i < fds@.len() implies #[trigger] fds@[i] >= 0 by {
                assert(fds@[i] == self@.planes[i].fd);
            }
        }
        fds
    }

    /// A second owner of the same memory. The caller hands in one freshly
    /// duplicated file descriptor per plane; the source is only read. The
    /// result is `None` where the list is no such set of new handles.
    pub fn duplicate(&self, fds: &Vec<i32>) -> (copy: Option<BufferDescriptor>)
        ensures
            self.wf(),
            copy.is_some() == spec_fresh_fds(self@.planes, fds@),
            copy matches Some(copy) ==> {
                &&& copy.wf()
                &&& copy@ == (DescriptorView {
                    planes: spec_with_fds(self@.planes, fds@),
                    ..self@
                })
            },
    {
        proof {
            use_type_invariant(self);
        }
        if fds.len() != self.planes.len() {
            return None;
        }
        let mut planes: Vec<Plane> = Vec::new();
        let mut i: usize = 0;
        while i < fds.len()
            invariant
                i <= fds.len(),
                fds.len() == self.planes.len(),
                self.wf(),
                planes@ == spec_with_fds(self.planes@, fds@).subrange(0, i as int),
                forall|k: int| 0 <= k < i ==> #[trigger] fds@[k] >= 0,
                forall|k: int, l: int| 0 <= k < l < i ==> fds@[k] != fds@[l],
                forall|k: int| 0 <= k < i ==> !spec_holds_fd(self.planes@, #[trigger] fds@[k]),
            decreases fds.len() - i,
        {
            let fd = fds[i];
            if fd < 0 || holds_fd(&self.planes, fd) || holds_fd(&planes, fd) {
                proof {
                    if fd >= 0 && !spec_holds_fd(self.planes@, fd) {
                        let k = choose|k: int| 0 <= k < planes@.len() && (#[trigger] planes@[k]).fd == fd;
                        assert(fds@[k] == fds@[i as int]);
                    }
                }
                return None;
            }
            let source = self.planes[i];
            planes.push(
                Plane { fd, plane_idx: source.plane_idx, offset: source.offset, stride: source.stride },
            );
            proof {
                assert forall|k: int, l: int| 0 <= k < l < i + 1 implies fds@[k] != fds@[l] by {
                    if l == i {
                        assert(planes@[k].fd == fds@[k]);
                    }
                }
            }
            i += 1;
        }
        proof {
            let all = spec_with_fds(self.planes@, fds@);
            assert(planes@ == all);
            assert(spec_planes_sorted(all));
            assert(spec_fds_owned_once(all));
            assert(spec_strides_fit(self.format, self.width, all)) by {
                assert forall|k: int| 0 <= k < all.len() implies (#[trigger] all[k]).stride
                    >= spec_min_stride(self.format, self.width) by {
                    assert(self.planes@[k].stride >= spec_min_stride(self.format, self.width));
                }
            }
        }
        Some(
            BufferDescriptor {
                id: self.id,
                width: self.width,
                height: self.height,
                format: self.format,
                modifier: self.modifier,
                flags: self.flags,
                planes,
            },
        )
    }
}

/// A duplicate and its source hold no file descriptor in common, and each
/// holds every one of its file descriptors once: closing those of the one
/// closes none of the other, and closing those of either closes none twice.
pub proof fn lemma_duplicate_owns_its_own(source: DescriptorView, fds: Seq<i32>)
    requires
        source.wf(),
        spec_fresh_fds(source.planes, fds),
    ensures
        ({
            let copy = DescriptorView { planes: spec_with_fds(source.planes, fds), ..source };
            &&& copy.wf()
            &&& forall|i: int|
                0 <= i < copy.planes.len() ==> !spec_holds_fd(source.planes, (#[trigger] copy.planes[i]).fd)
            &&& forall|i: int|
                0 <= i < source.planes.len() ==> !spec_holds_fd(copy.planes, (#[trigger] source.planes[i]).fd)
            &&& spec_fds_owned_once(copy.planes)
            &&& spec_fds_owned_once(source.planes)
        }),
{
    let copy = DescriptorView { planes: spec_with_fds(source.planes, fds), ..source };
    assert forall|i: int| 0 <= i < copy.planes.len() implies !spec_holds_fd(
        source.planes,
        (#[trigger] copy.planes[i]).fd,
    ) by {
        assert(copy.planes[i].fd == fds[i]);
    }
    assert forall|i: int| 0 <= i < source.planes.len() implies !spec_holds_fd(
        copy.planes,
        (#[trigger] source.planes[i]).fd,
    ) by {
        if spec_holds_fd(copy.planes, source.planes[i].fd) {
            let k = choose|k: int| 0 <= k < copy.planes.len() && (#[trigger] copy.planes[k]).fd
                == source.planes[i].fd;
            assert(copy.planes[k].fd == fds[k]);
            assert(spec_holds_fd(source.planes, fds[k]));
        }
    }
    assert forall|i: int| 0 <= i < copy.planes.len() implies (#[trigger] copy.planes[i]).stride
        >= spec_min_stride(copy.format, copy.width) by {
        assert(source.planes[i].stride >= spec_min_stride(source.format, source.width));
    }
}

/// Whether one of the planes holds the file descriptor.
fn holds_fd(planes: &Vec<Plane>, fd: i32) -> (held: bool)
    ensures
        held == spec_holds_fd(planes@, fd),
{
    let mut i: usize = 0;
    while i < planes.len()
        invariant
            i <= planes.len(),
            forall|k: int| 0 <= k < i ==> (#[trigger] planes@[k]).fd != fd,
        decreases planes.len() - i,
    {
        if planes[i].fd == fd {
            return true;
        }
        i += 1;
    }
    false
}

/// A copy of the planes with one more at the given position.
fn with_inserted(planes: &Vec<Plane>, position: usize, plane: Plane) -> (result: Vec<Plane>)
    requires
        position <= planes.len(),
    ensures
        result@ == planes@.insert(position as int, plane),
{
    let mut result: Vec<Plane> = Vec::new();
    let mut i: usize = 0;
    while i < position
        invariant
            i <= position <= planes.len(),
            result@ == planes@.subrange(0, i as int),
        decreases position - i,
    {
        result.push(planes[i]);
        i += 1;
    }
    result.push(plane);
    while i < planes.len()
        invariant
            position <= i <= planes.len(),
            result@ == planes@.subrange(0, position as int).push(plane) + planes@.subrange(
                position as int,
                i as int,
            ),
        decreases planes.len() - i,
    {
        result.push(planes[i]);
        i += 1;
    }
    result
}

impl DescriptorBuilder {
    pub closed spec fn view(&self) -> DescriptorView {
        DescriptorView {
            id: self.id,
            width: self.width,
            height: self.height,
            format: self.format,
            modifier: self.modifier,
            flags: self.flags@,
            planes: self.planes@,
        }
    }

    #[verifier::type_invariant]
    closed spec fn inv(&self) -> bool {
        self@.wf_partial()
    }

    /// Adds a plane. The plane is refused, and the builder left as it was,
    /// when it already holds the most planes a descriptor can have, when the
    /// file descriptor is no valid handle, or when a plane of the builder
    /// holds that file descriptor already.
    pub fn add_plane(&mut self, fd: i32, idx: u32, offset: u32, stride: u32) -> (added: bool)
        ensures
            old(self)@.wf_partial(),
            final(self)@.wf_partial(),
            added == (old(self)@.planes.len() < MAX_PLANES && fd >= 0 && !spec_holds_fd(
                old(self)@.planes,
                fd,
            )),
            added ==> final(self)@ == (DescriptorView {
                planes: spec_with_plane(old(self)@.planes, Plane { fd, plane_idx: idx, offset, stride }),
                ..old(self)@
            }),
            !added ==> final(self)@ == old(self)@,
    {
        proof {
            use_type_invariant(&*self);
        }
        if self.planes.len() == MAX_PLANES || fd < 0 || holds_fd(&self.planes, fd) {
            return false;
        }
        let plane = Plane { fd, plane_idx: idx, offset, stride };
        let mut position: usize = 0;
        assert(self.planes@.subrange(0, self.planes@.len() as int) == self.planes@);
        while position < self.planes.len() && self.planes[position].plane_idx <= idx
            invariant
                position <= self.planes.len(),
                spec_insert_position(self.planes@, idx) == position + spec_insert_position(
                    self.planes@.subrange(position as int, self.planes@.len() as int),
                    idx,
                ),
            decreases self.planes.len() - position,
        {
            proof {
                let rest = self.planes@.subrange(position as int, self.planes@.len() as int);
                assert(rest.subrange(1, rest.len() as int) == self.planes@.subrange(
                    position as int + 1,
                    self.planes@.len() as int,
                ));
            }
            position += 1;
        }
        proof {
            lemma_with_plane(self.planes@, plane);
        }
        self.planes = with_inserted(&self.planes, position, plane);
        true
    }

    /// The number of planes added so far.
    pub fn num_planes(&self) -> (count: usize)
        ensures
            count == self@.planes.len(),
            count <= MAX_PLANES,
            self@.wf_partial(),
    {
        proof {
            use_type_invariant(self);
        }
        self.planes.len()
    }

    /// Finishes the descriptor. The result is `None` where the planes do not
    /// make a valid descriptor: where there is none, where there are more than
    /// the format has, or where a row is too short for the format and the width.
    pub fn build(self) -> (descriptor: Option<BufferDescriptor>)
        ensures
            descriptor.is_some() == self@.wf(),
            descriptor matches Some(d) ==> d@ == self@ && d.wf(),
    {
        proof {
            use_type_invariant(&self);
        }
        if self.planes.len() == 0 || self.planes.len() > self.format.plane_count() {
            return None;
        }
        let packed = gst_video_format_from_drm_fourcc(self.format).is_some();
        let mut i: usize = 0;
        while i < self.planes.len()
            invariant
                i <= self.planes.len(),
                packed == spec_video_format_from_fourcc(self.format).is_some(),
                forall|k: int|
                    0 <= k < i ==> (#[trigger] self.planes@[k]).stride >= spec_min_stride(
                        self.format,
                        self.width,
                    ),
            decreases self.planes.len() - i,
        {
            if packed && (self.planes[i].stride as u64) < 4 * (self.width as u64) {
                return None;
            }
            i += 1;
        }
        Some(
            BufferDescriptor {
                id: self.id,
                width: self.width,
                height: self.height,
                format: self.format,
                modifier: self.modifier,
                flags: self.flags,
                planes: self.planes,
            },
        )
    }
}

} // verus!
