use wayland_display::utils::{
    gst_video_format_from_drm_fourcc, gst_video_format_to_drm_fourcc, join_u64, split_u64, Fourcc,
    VideoFormat, DRM_FORMAT_ABGR8888, DRM_FORMAT_ARGB8888, DRM_FORMAT_BGRA8888,
    DRM_FORMAT_BGRX8888, DRM_FORMAT_MOD_INVALID, DRM_FORMAT_MOD_LINEAR, DRM_FORMAT_NV12,
    DRM_FORMAT_RGBA8888, DRM_FORMAT_RGBX8888, DRM_FORMAT_XBGR8888, DRM_FORMAT_XRGB8888,
};

#[test]
fn fourcc_codes_are_made_of_their_characters() {
    assert_eq!(Fourcc::from_bytes(b'A', b'B', b'2', b'4').code(), DRM_FORMAT_ABGR8888);
    assert_eq!(Fourcc::from_bytes(b'A', b'R', b'2', b'4').code(), DRM_FORMAT_ARGB8888);
    assert_eq!(Fourcc::from_bytes(b'B', b'A', b'2', b'4').code(), DRM_FORMAT_BGRA8888);
    assert_eq!(Fourcc::from_bytes(b'B', b'X', b'2', b'4').code(), DRM_FORMAT_BGRX8888);
    assert_eq!(Fourcc::from_bytes(b'R', b'A', b'2', b'4').code(), DRM_FORMAT_RGBA8888);
    assert_eq!(Fourcc::from_bytes(b'R', b'X', b'2', b'4').code(), DRM_FORMAT_RGBX8888);
    assert_eq!(Fourcc::from_bytes(b'X', b'B', b'2', b'4').code(), DRM_FORMAT_XBGR8888);
    assert_eq!(Fourcc::from_bytes(b'X', b'R', b'2', b'4').code(), DRM_FORMAT_XRGB8888);
    assert_eq!(Fourcc::from_bytes(b'N', b'V', b'1', b'2').code(), DRM_FORMAT_NV12);
    assert_eq!(DRM_FORMAT_ABGR8888, 875708993);
    assert_eq!(DRM_FORMAT_ARGB8888, 875713089);
}

#[test]
fn fourcc_maps_to_the_byte_swapped_video_format() {
    let table = [
        (DRM_FORMAT_ABGR8888, VideoFormat::Rgba),
        (DRM_FORMAT_ARGB8888, VideoFormat::Bgra),
        (DRM_FORMAT_BGRA8888, VideoFormat::Argb),
        (DRM_FORMAT_BGRX8888, VideoFormat::Xrgb),
        (DRM_FORMAT_RGBA8888, VideoFormat::Abgr),
        (DRM_FORMAT_RGBX8888, VideoFormat::Xbgr),
        (DRM_FORMAT_XBGR8888, VideoFormat::Rgbx),
        (DRM_FORMAT_XRGB8888, VideoFormat::Bgrx),
    ];
    for (code, format) in table {
        assert_eq!(gst_video_format_from_drm_fourcc(Fourcc::new(code)), Some(format));
        assert_eq!(gst_video_format_to_drm_fourcc(format), Some(Fourcc::new(code)));
    }
}

#[test]
fn formats_without_counterpart_map_to_none() {
    assert_eq!(gst_video_format_from_drm_fourcc(Fourcc::new(DRM_FORMAT_NV12)), None);
    assert_eq!(gst_video_format_from_drm_fourcc(Fourcc::new(0)), None);
    assert_eq!(gst_video_format_to_drm_fourcc(VideoFormat::Other), None);
}

#[test]
fn plane_count_follows_the_format() {
    assert_eq!(Fourcc::new(DRM_FORMAT_ARGB8888).plane_count(), 1);
    assert_eq!(Fourcc::new(DRM_FORMAT_NV12).plane_count(), 2);
    assert_eq!(Fourcc::new(0x1234_5678).plane_count(), 4);
}

#[test]
fn split_and_join_are_inverse() {
    assert_eq!(split_u64(0x0123_4567_89ab_cdef), (0x0123_4567, 0x89ab_cdef));
    assert_eq!(split_u64(DRM_FORMAT_MOD_LINEAR), (0, 0));
    assert_eq!(split_u64(DRM_FORMAT_MOD_INVALID), (0x00ff_ffff, 0xffff_ffff));
    assert_eq!(split_u64(u64::MAX), (u32::MAX, u32::MAX));
    assert_eq!(join_u64(0x0123_4567, 0x89ab_cdef), 0x0123_4567_89ab_cdef);
    for value in [0u64, 1, 0xffff_ffff, 0x1_0000_0000, u64::MAX, 0xdead_beef_0000_0001] {
        let (high, low) = split_u64(value);
        assert_eq!(join_u64(high, low), value);
    }
}
