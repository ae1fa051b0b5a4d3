use wayland_display::dmabuf::{BufferDescriptor, DmabufFlags, Plane, MAX_PLANES};
use wayland_display::time::{Duration, Timestamp};
use wayland_display::utils::{
    Fourcc, DRM_FORMAT_ARGB8888, DRM_FORMAT_MOD_INVALID, DRM_FORMAT_MOD_LINEAR, DRM_FORMAT_NV12,
};
use wayland_display::window::{CommitAction, Window};

fn argb() -> Fourcc {
    Fourcc::new(DRM_FORMAT_ARGB8888)
}

#[test]
fn builder_makes_single_plane_descriptor() {
    let mut builder =
        BufferDescriptor::builder(7, 1280, 720, argb(), DRM_FORMAT_MOD_LINEAR, DmabufFlags::empty());
    assert!(builder.add_plane(5, 0, 0, 5120));
    let descriptor = builder.build().expect("a valid descriptor");
    assert_eq!(descriptor.id(), 7);
    assert_eq!(descriptor.width(), 1280);
    assert_eq!(descriptor.height(), 720);
    assert_eq!(descriptor.format(), argb());
    assert_eq!(descriptor.modifier(), DRM_FORMAT_MOD_LINEAR);
    assert_eq!(descriptor.num_planes(), 1);
    assert_eq!(descriptor.plane(0), Some(Plane { fd: 5, plane_idx: 0, offset: 0, stride: 5120 }));
    assert_eq!(descriptor.plane(1), None);
    assert_eq!(descriptor.handles(), vec![5]);
    assert_eq!(descriptor.offsets(), vec![0]);
    assert_eq!(descriptor.strides(), vec![5120]);
    assert!(!descriptor.y_inverted());
    assert!(!descriptor.has_modifier());
    assert_eq!(descriptor.weak().id, 7);
}

#[test]
fn builder_without_planes_makes_nothing() {
    let builder =
        BufferDescriptor::builder(1, 16, 16, argb(), DRM_FORMAT_MOD_LINEAR, DmabufFlags::empty());
    assert!(builder.build().is_none());
}

#[test]
fn builder_orders_planes_by_index() {
    let format = Fourcc::new(0x3259_5559);
    let mut builder =
        BufferDescriptor::builder(1, 16, 16, format, DRM_FORMAT_MOD_INVALID, DmabufFlags::empty());
    assert!(builder.add_plane(12, 2, 200, 8));
    assert!(builder.add_plane(10, 0, 0, 16));
    assert!(builder.add_plane(11, 1, 100, 8));
    let descriptor = builder.build().expect("a valid descriptor");
    assert_eq!(descriptor.handles(), vec![10, 11, 12]);
    assert_eq!(descriptor.offsets(), vec![0, 100, 200]);
    assert_eq!(descriptor.plane(1).unwrap().plane_idx, 1);
}

#[test]
fn builder_refuses_bad_file_descriptors_and_a_fifth_plane() {
    let format = Fourcc::new(0x3259_5559);
    let mut builder =
        BufferDescriptor::builder(1, 16, 16, format, DRM_FORMAT_MOD_LINEAR, DmabufFlags::empty());
    assert!(!builder.add_plane(-1, 0, 0, 64));
    assert!(builder.add_plane(3, 0, 0, 64));
    assert!(!builder.add_plane(3, 1, 0, 64));
    assert!(builder.add_plane(4, 1, 0, 64));
    assert!(builder.add_plane(5, 2, 0, 64));
    assert!(builder.add_plane(6, 3, 0, 64));
    assert_eq!(builder.num_planes(), MAX_PLANES);
    assert!(!builder.add_plane(7, 4, 0, 64));
    assert_eq!(builder.num_planes(), MAX_PLANES);
}

#[test]
fn build_checks_plane_count_and_stride_of_the_format() {
    let mut two = BufferDescriptor::builder(1, 16, 16, argb(), 0, DmabufFlags::empty());
    assert!(two.add_plane(3, 0, 0, 64));
    assert!(two.add_plane(4, 1, 0, 64));
    assert!(two.build().is_none());

    let mut short = BufferDescriptor::builder(1, 16, 16, argb(), 0, DmabufFlags::empty());
    assert!(short.add_plane(3, 0, 0, 63));
    assert!(short.build().is_none());

    let mut exact = BufferDescriptor::builder(1, 16, 16, argb(), 0, DmabufFlags::empty());
    assert!(exact.add_plane(3, 0, 0, 64));
    assert!(exact.build().is_some());

    let nv12 = Fourcc::new(DRM_FORMAT_NV12);
    let mut planar = BufferDescriptor::builder(1, 16, 16, nv12, 0, DmabufFlags::empty());
    assert!(planar.add_plane(3, 0, 0, 16));
    assert!(planar.add_plane(4, 1, 256, 16));
    assert!(planar.build().is_some());
}

#[test]
fn flags_keep_known_bits_only() {
    assert_eq!(DmabufFlags::from_bits_truncate(0xffff_fff9).bits(), 1);
    assert!(DmabufFlags::from_bits_truncate(1).y_inverted());
    assert!(!DmabufFlags::from_bits_truncate(6).y_inverted());
    assert_eq!(DmabufFlags::empty().bits(), 0);
}

#[test]
fn duplicate_takes_new_file_descriptors_and_leaves_the_source() {
    let mut builder = BufferDescriptor::builder(9, 4, 4, argb(), 0, DmabufFlags::from_bits_truncate(1));
    assert!(builder.add_plane(5, 0, 32, 16));
    let source = builder.build().unwrap();
    let copy = source.duplicate(&vec![8]).expect("a duplicate");
    assert_eq!(copy.id(), 9);
    assert_eq!(copy.handles(), vec![8]);
    assert_eq!(copy.offsets(), vec![32]);
    assert_eq!(copy.strides(), vec![16]);
    assert!(copy.y_inverted());
    assert_eq!(source.handles(), vec![5]);
    assert!(source.holds_fd(5));
    assert!(!source.holds_fd(8));
}

#[test]
fn duplicate_refuses_handles_that_are_not_new() {
    let mut builder = BufferDescriptor::builder(9, 4, 4, argb(), 0, DmabufFlags::empty());
    assert!(builder.add_plane(5, 0, 0, 16));
    let source = builder.build().unwrap();
    assert!(source.duplicate(&vec![5]).is_none());
    assert!(source.duplicate(&vec![-1]).is_none());
    assert!(source.duplicate(&vec![]).is_none());
    assert!(source.duplicate(&vec![6, 7]).is_none());
}

#[test]
fn duration_since_counts_seconds_and_nanoseconds() {
    let start = Timestamp::new(10, 900_000_000).unwrap();
    let later = Timestamp::new(12, 100_000_000).unwrap();
    let elapsed = later.duration_since(start);
    assert_eq!(elapsed.as_secs(), 1);
    assert_eq!(elapsed.subsec_nanos(), 200_000_000);
    assert_eq!(elapsed, Duration::new(1, 200_000_000).unwrap());
    let same = later.duration_since(later);
    assert_eq!((same.as_secs(), same.subsec_nanos()), (0, 0));
}

#[test]
fn duration_since_a_later_point_is_zero() {
    let start = Timestamp::new(10, 900_000_000).unwrap();
    let later = Timestamp::new(12, 100_000_000).unwrap();
    let elapsed = start.duration_since(later);
    assert_eq!((elapsed.as_secs(), elapsed.subsec_nanos()), (0, 0));
}

#[test]
fn nanoseconds_must_be_less_than_a_second() {
    assert!(Timestamp::new(0, 999_999_999).is_some());
    assert!(Timestamp::new(0, 1_000_000_000).is_none());
    assert!(Duration::new(5, 1_000_000_000).is_none());
}

#[test]
fn only_wayland_windows_refresh_their_bounding_box() {
    assert_eq!(Window::Wayland(1).on_commit(), CommitAction::RefreshBoundingBox);
    assert_eq!(Window::X11(1).on_commit(), CommitAction::Nothing);
}

#[test]
fn giving_a_descriptor_up_lists_each_file_descriptor_once() {
    let nv12 = Fourcc::new(DRM_FORMAT_NV12);
    let mut builder = BufferDescriptor::builder(1, 16, 16, nv12, 0, DmabufFlags::empty());
    assert!(builder.add_plane(7, 1, 256, 16));
    assert!(builder.add_plane(3, 0, 0, 16));
    let source = builder.build().unwrap();
    let copy = source.duplicate(&vec![20, 21]).unwrap();
    let closed = copy.into_fds();
    assert_eq!(closed, vec![20, 21]);
    assert!(closed.iter().all(|fd| !source.holds_fd(*fd)));
    assert_eq!(source.into_fds(), vec![3, 7]);
}
