use wayland_display::allocators::dma_heap::{
    preferred_heap, Attempt, DmaHeapMemoryAllocator, HeapKind,
};
use wayland_display::allocators::gbm::{BufferRequest, GbmMemoryAllocator};
use wayland_display::allocators::memfd::MemfdMemoryAllocator;
use wayland_display::allocators::{select_allocator, AllocError, AllocatorKind};
use wayland_display::buffer_pool::{
    find_memory, AlignedLayout, BufferPoolConfig, Caps, ConfigError, Memory, PoolError, PoolOption,
    SmithayBufferPool,
};
use wayland_display::dmabuf::Plane;
use wayland_display::utils::{Fourcc, VideoFormat, DRM_FORMAT_ARGB8888, DRM_FORMAT_MOD_LINEAR};
use wayland_display::video::{AllocationParams, VideoAlignment, VideoInfo};

fn info(format: VideoFormat, stride: i32) -> VideoInfo {
    VideoInfo {
        format,
        width: 1280,
        height: 720,
        fps_n: 30,
        fps_d: 1,
        n_planes: 1,
        offset: [0, 0, 0, 0],
        stride: [stride, 0, 0, 0],
        size: (stride as usize) * 720,
    }
}

fn proposal(align: usize, stride_align: u32) -> BufferPoolConfig {
    let mut config = BufferPoolConfig::new();
    config.set_params(Some(Caps::Video(info(VideoFormat::Bgra, 5120))), 100, 2, 4);
    config.set_allocator(Some(AllocatorKind::Gbm), AllocationParams::new(0, align, 0, 0));
    config.add_option(PoolOption::VideoMeta);
    config.add_option(PoolOption::VideoAlignment);
    config.set_video_alignment(VideoAlignment::new(1, 2, 3, 4, [stride_align, 0, 0, 0]));
    config
}

fn layout(stride: i32, stride_align: u32) -> AlignedLayout {
    AlignedLayout {
        video_info: info(VideoFormat::Bgra, stride),
        alignment: VideoAlignment::new(1, 2, 3, 8, [stride_align, 0, 0, 0]),
    }
}

#[test]
fn plan_joins_the_alignments_bit_by_bit() {
    let plan = SmithayBufferPool::plan_config(&proposal(127, 31)).unwrap();
    assert_eq!(plan.allocation_params.align, 127);
    assert_eq!(plan.alignment.unwrap().stride_align, [127, 0, 0, 0]);
    assert_eq!(plan.alignment.unwrap().padding_left, 3);
    assert!(plan.add_video_meta);
    assert_eq!((plan.size, plan.min_buffers, plan.max_buffers), (100, 2, 4));
    assert_eq!(plan.allocator, AllocatorKind::Gbm);

    let plan = SmithayBufferPool::plan_config(&proposal(15, 63)).unwrap();
    assert_eq!(plan.allocation_params.align, 63);
    assert_eq!(plan.alignment.unwrap().stride_align, [63, 0, 0, 0]);

    let plan = SmithayBufferPool::plan_config(&proposal(0b1010, 0b0101)).unwrap();
    assert_eq!(plan.allocation_params.align, 0b1111);
}

#[test]
fn a_smaller_plane_alignment_never_lowers_the_negotiated_one() {
    let mut pool = SmithayBufferPool::new();
    let first = pool.set_config(&proposal(127, 31), Some(layout(5120, 127))).unwrap();
    assert_eq!(first.allocator.unwrap().1.align, 127);
    let mut again = first;
    again.set_video_alignment(VideoAlignment::new(0, 0, 0, 0, [3, 0, 0, 0]));
    let plan = SmithayBufferPool::plan_config(&again).unwrap();
    assert_eq!(plan.allocation_params.align, 127);
    assert_eq!(plan.alignment.unwrap().stride_align, [127, 0, 0, 0]);
    let second = pool.set_config(&again, Some(layout(5120, 127))).unwrap();
    assert_eq!(second.allocator.unwrap().1.align, 127);
    assert_eq!(pool.state.allocation_params.unwrap().align, 127);
}

#[test]
fn set_config_takes_the_layout_and_a_size_that_holds_a_frame() {
    let mut pool = SmithayBufferPool::new();
    let accepted = pool.set_config(&proposal(127, 31), Some(layout(5120, 127))).unwrap();
    let params = accepted.params.unwrap();
    assert_eq!(params.size, 5120 * 720);
    assert_eq!((params.min_buffers, params.max_buffers), (2, 4));
    assert_eq!(accepted.video_alignment.unwrap().padding_right, 8);
    assert!(accepted.has_option(PoolOption::VideoMeta));
    assert!(accepted.has_option(PoolOption::VideoAlignment));
    assert_eq!(pool.state.video_info.unwrap().stride[0], 5120);
    assert_eq!(pool.state.allocator, Some(AllocatorKind::Gbm));
    assert!(pool.state.add_video_meta);
    assert_eq!(pool.allocation_request(), Some((AllocatorKind::Gbm, 5120 * 720)));

    let mut large = proposal(127, 31);
    large.set_params(Some(Caps::Video(info(VideoFormat::Bgra, 5120))), 10_000_000, 0, 0);
    let accepted = pool.set_config(&large, Some(layout(5120, 127))).unwrap();
    assert_eq!(accepted.params.unwrap().size, 10_000_000);
}

#[test]
fn set_config_without_alignment_keeps_the_proposal() {
    let mut pool = SmithayBufferPool::new();
    let mut config = BufferPoolConfig::new();
    config.set_params(Some(Caps::Video(info(VideoFormat::Other, 5120))), 1, 0, 0);
    config.set_allocator(Some(AllocatorKind::Memfd), AllocationParams::new(0, 7, 0, 0));
    let accepted = pool.set_config(&config, None).unwrap();
    assert_eq!(accepted.allocator.unwrap().1.align, 7);
    assert!(accepted.video_alignment.is_none());
    assert!(!pool.state.add_video_meta);
    assert_eq!(accepted.params.unwrap().size, 5120 * 720);
}

#[test]
fn a_refused_configuration_leaves_the_pool_as_it_was() {
    let mut pool = SmithayBufferPool::new();
    pool.set_config(&proposal(127, 31), Some(layout(5120, 127))).unwrap();
    let before = pool.state.video_info.unwrap().stride[0];

    let expect = |pool: &mut SmithayBufferPool, config: &BufferPoolConfig, given, error| {
        assert_eq!(pool.set_config(config, given).unwrap_err(), error);
        assert_eq!(pool.state.video_info.unwrap().stride[0], before);
        assert_eq!(pool.state.allocation_params.unwrap().align, 127);
    };

    expect(&mut pool, &BufferPoolConfig::new(), None, ConfigError::MissingParams);

    let mut config = proposal(127, 31);
    config.set_params(None, 0, 0, 0);
    expect(&mut pool, &config, None, ConfigError::MissingCaps);

    let mut config = proposal(127, 31);
    config.set_params(Some(Caps::Other), 0, 0, 0);
    expect(&mut pool, &config, None, ConfigError::InvalidCaps);

    let mut planes = info(VideoFormat::Bgra, 5120);
    planes.n_planes = 5;
    let mut config = proposal(127, 31);
    config.set_params(Some(Caps::Video(planes)), 0, 0, 0);
    expect(&mut pool, &config, None, ConfigError::InvalidCaps);

    let mut config = proposal(127, 31);
    config.allocator = None;
    expect(&mut pool, &config, None, ConfigError::MissingAllocator);
    config.set_allocator(None, AllocationParams::new(0, 0, 0, 0));
    expect(&mut pool, &config, None, ConfigError::MissingAllocator);

    let mut config = proposal(127, 31);
    config.set_params(Some(Caps::Video(info(VideoFormat::Other, 5120))), 0, 0, 0);
    expect(&mut pool, &config, None, ConfigError::UnsupportedFormat);

    expect(&mut pool, &proposal(127, 31), None, ConfigError::Alignment);
    expect(&mut pool, &proposal(127, 31), Some(layout(5124, 127)), ConfigError::Alignment);
    expect(&mut pool, &proposal(127, 31), Some(layout(-5120, 127)), ConfigError::Alignment);
    expect(&mut pool, &proposal(127, 31), Some(layout(5120, 31)), ConfigError::Alignment);
    expect(&mut pool, &proposal(usize::MAX, 31), Some(layout(5120, 127)), ConfigError::Alignment);
}

#[test]
fn pool_knows_two_options() {
    assert_eq!(SmithayBufferPool::options(), vec![PoolOption::VideoMeta, PoolOption::VideoAlignment]);
    let config = BufferPoolConfig::new();
    assert!(!config.has_option(PoolOption::VideoMeta));
    assert!(!config.has_option(PoolOption::VideoAlignment));
}

#[test]
fn find_memory_walks_the_blocks() {
    let block = |size| Memory { fd: Some(1), offset: 0, size };
    let memories = vec![block(10), block(0), block(5)];
    assert_eq!(find_memory(&memories, 0), Some((0, 0)));
    assert_eq!(find_memory(&memories, 9), Some((0, 9)));
    assert_eq!(find_memory(&memories, 10), Some((2, 0)));
    assert_eq!(find_memory(&memories, 14), Some((2, 4)));
    assert_eq!(find_memory(&memories, 15), None);
    assert_eq!(find_memory(&vec![], 0), None);
}

fn configured(video_meta: bool) -> SmithayBufferPool {
    let mut pool = SmithayBufferPool::new();
    let mut config = proposal(127, 31);
    config.video_meta = video_meta;
    let given = if video_meta { Some(layout(5120, 127)) } else { None };
    pool.set_config(&config, given).unwrap();
    pool
}

#[test]
fn shared_memory_gets_a_descriptor_and_needs_no_copy() {
    let pool = configured(true);
    let memory = Memory { fd: Some(9), offset: 32, size: 5120 * 720 };
    let buffer = pool.alloc_buffer(11, Ok(vec![memory])).unwrap();
    assert!(!buffer.must_copy);
    assert_eq!(buffer.memories, vec![memory]);
    let descriptor = buffer.meta.as_ref().unwrap().get_dma_buffer();
    assert_eq!(descriptor.id(), 11);
    assert_eq!((descriptor.width(), descriptor.height()), (1280, 720));
    assert_eq!(descriptor.format(), Fourcc::new(DRM_FORMAT_ARGB8888));
    assert_eq!(descriptor.modifier(), DRM_FORMAT_MOD_LINEAR);
    assert_eq!(descriptor.plane(0), Some(Plane { fd: 9, plane_idx: 0, offset: 32, stride: 5120 }));
    let meta = buffer.video_meta.unwrap();
    assert_eq!((meta.width, meta.height, meta.n_planes), (1280, 720, 1));
    assert_eq!(meta.stride[0], 5120);
    let freed = pool.free_buffer(buffer);
    assert_eq!(freed.memories, vec![memory]);
}

#[test]
fn video_meta_is_added_only_when_asked_for() {
    let pool = configured(false);
    let memory = Memory { fd: Some(9), offset: 0, size: 5120 * 720 };
    let buffer = pool.alloc_buffer(1, Ok(vec![memory])).unwrap();
    assert!(buffer.meta.is_some());
    assert!(buffer.video_meta.is_none());
}

#[test]
fn ordinary_memory_gives_a_buffer_that_must_be_copied_into() {
    let pool = configured(true);
    let memory = Memory { fd: None, offset: 0, size: 5120 * 720 };
    let buffer = pool.alloc_buffer(1, Ok(vec![memory])).unwrap();
    assert!(buffer.must_copy);
    assert!(buffer.meta.is_none());
    assert!(buffer.video_meta.is_none());
}

#[test]
fn the_pool_has_no_buffer_where_the_memory_cannot_be_described() {
    let pool = configured(true);
    let shared = |size| Memory { fd: Some(9), offset: 0, size };
    assert!(matches!(
        pool.alloc_buffer(1, Err(AllocError::SizeMismatch { required: 2, actual: 1 })),
        Err(PoolError::Allocation(AllocError::SizeMismatch { required: 2, actual: 1 }))
    ));
    assert!(matches!(SmithayBufferPool::new().alloc_buffer(1, Ok(vec![shared(1)])), Err(PoolError::NotConfigured)));
    assert!(matches!(pool.alloc_buffer(1, Ok(vec![])), Err(PoolError::NoMemory)));
    assert!(matches!(pool.alloc_buffer(1, Ok(vec![shared(0)])), Err(PoolError::Layout)));
    let negative = Memory { fd: Some(-1), offset: 0, size: 16 };
    assert!(matches!(pool.alloc_buffer(1, Ok(vec![negative])), Err(PoolError::Descriptor)));

    let mut other = SmithayBufferPool::new();
    let mut config = BufferPoolConfig::new();
    config.set_params(Some(Caps::Video(info(VideoFormat::Other, 5120))), 1, 0, 0);
    config.set_allocator(Some(AllocatorKind::DmaHeap), AllocationParams::new(0, 0, 0, 0));
    other.set_config(&config, None).unwrap();
    assert!(matches!(other.alloc_buffer(1, Ok(vec![shared(16)])), Err(PoolError::UnsupportedFormat)));
    assert_eq!(SmithayBufferPool::new().allocation_request(), None);
}

#[test]
fn allocators_are_chosen_in_their_order() {
    assert_eq!(select_allocator(true, true, true), Some(AllocatorKind::Gbm));
    assert_eq!(select_allocator(true, false, false), Some(AllocatorKind::Gbm));
    assert_eq!(select_allocator(false, true, true), Some(AllocatorKind::DmaHeap));
    assert_eq!(select_allocator(false, true, false), Some(AllocatorKind::DmaHeap));
    assert_eq!(select_allocator(false, false, false), Some(AllocatorKind::Memfd));
    assert_eq!(select_allocator(false, false, true), None);
}

#[test]
fn gbm_allocator_asks_for_a_linear_buffer_and_checks_its_size() {
    let stream = info(VideoFormat::Bgra, 5120);
    let allocator = GbmMemoryAllocator::new(None, &stream).unwrap();
    assert_eq!(allocator.device_path(), "/dev/dri/renderD128");
    assert_eq!(
        allocator.request(),
        BufferRequest {
            width: 1280,
            height: 720,
            fourcc: Fourcc::new(DRM_FORMAT_ARGB8888),
            modifier: DRM_FORMAT_MOD_LINEAR,
        }
    );
    let named = GbmMemoryAllocator::new(Some("/dev/dri/renderD129".to_string()), &stream).unwrap();
    assert_eq!(named.device_path(), "/dev/dri/renderD129");
    assert!(GbmMemoryAllocator::new(None, &info(VideoFormat::Other, 1)).is_none());

    assert_eq!(
        GbmMemoryAllocator::allocated(100, Ok((7, 128))).unwrap(),
        vec![Memory { fd: Some(7), offset: 0, size: 128 }]
    );
    assert_eq!(
        GbmMemoryAllocator::allocated(100, Ok((7, 100))).unwrap(),
        vec![Memory { fd: Some(7), offset: 0, size: 100 }]
    );
    assert!(matches!(
        GbmMemoryAllocator::allocated(100, Ok((7, 99))),
        Err(AllocError::SizeMismatch { required: 100, actual: 99 })
    ));
    match GbmMemoryAllocator::allocated(100, Err("no bo".to_string())) {
        Err(AllocError::BufferCreation(cause)) => assert_eq!(cause, "no bo"),
        other => panic!("unexpected {:?}", other),
    }
}

#[test]
fn the_contiguous_heap_is_preferred() {
    assert_eq!(preferred_heap(true, true), Some(HeapKind::Cma));
    assert_eq!(preferred_heap(true, false), Some(HeapKind::Cma));
    assert_eq!(preferred_heap(false, true), Some(HeapKind::System));
    assert_eq!(preferred_heap(false, false), None);
    assert_eq!(
        DmaHeapMemoryAllocator::allocated(64, Ok(3)).unwrap(),
        vec![Memory { fd: Some(3), offset: 0, size: 64 }]
    );
    assert!(matches!(
        DmaHeapMemoryAllocator::allocated(64, Err("busy".to_string())),
        Err(AllocError::BufferCreation(_))
    ));
}

#[test]
fn heap_availability_agrees_with_opening_a_heap() {
    let available = DmaHeapMemoryAllocator::is_available();
    match DmaHeapMemoryAllocator::new() {
        Ok(allocator) => {
            assert!(available);
            assert!(matches!(allocator.kind(), HeapKind::Cma | HeapKind::System));
        }
        Err(error) => {
            assert!(!available);
            assert!(matches!(error, AllocError::DeviceOpen(_)));
        }
    }
}

#[test]
fn sealed_memory_has_shrink_and_seal_seals() {
    let allocator = MemfdMemoryAllocator::new();
    let memory = allocator.allocate(4096).expect("sealed memory");
    assert_eq!(memory.size(), 4096);
    let seals = memory.memfd().seals().expect("seals");
    assert!(seals.contains(&memfd::FileSeal::SealShrink));
    assert!(seals.contains(&memfd::FileSeal::SealSeal));
    assert!(memory.seals().shrink);
    assert!(memory.seals().seal);
    assert!(!memory.seals().grow);
    assert_eq!(memory.memfd().as_file().metadata().expect("metadata").len(), 4096);
    assert!(memory.memfd().add_seal(memfd::FileSeal::SealGrow).is_err());
    let owned = memory.into_memfd();
    assert_eq!(owned.as_file().metadata().expect("metadata").len(), 4096);
}

#[test]
fn a_heap_that_cannot_be_opened_is_a_failure_to_open_the_device() {
    match DmaHeapMemoryAllocator::opened(HeapKind::System, Err("no such heap".to_string())) {
        Err(AllocError::DeviceOpen(cause)) => assert_eq!(cause, "no such heap"),
        _ => panic!("a heap was opened"),
    }
}

#[test]
fn the_contiguous_heap_is_tried_first_and_the_other_heap_only_after_it() {
    assert_eq!(DmaHeapMemoryAllocator::first_heap(), HeapKind::Cma);
    match DmaHeapMemoryAllocator::after_attempt(HeapKind::Cma, Err("no such heap".to_string())) {
        Attempt::Next(kind) => assert_eq!(kind, HeapKind::System),
        _ => panic!("the other heap was not tried"),
    }
    match DmaHeapMemoryAllocator::after_attempt(HeapKind::System, Err("none left".to_string())) {
        Attempt::Failed(AllocError::DeviceOpen(cause)) => assert_eq!(cause, "none left"),
        _ => panic!("a heap was tried after the last"),
    }
}

#[test]
fn set_config_hands_the_stream_back_as_it_came() {
    let proposed = VideoInfo {
        format: VideoFormat::Bgrx,
        width: 1366,
        height: 768,
        fps_n: 60,
        fps_d: 1,
        n_planes: 1,
        offset: [0, 0, 0, 0],
        stride: [5464, 0, 0, 0],
        size: 5464 * 768,
    };
    let laid_out = VideoInfo { stride: [5504, 0, 0, 0], size: 5504 * 768, ..proposed };
    let mut config = proposal(127, 31);
    config.set_params(Some(Caps::Video(proposed)), 100, 2, 4);
    let given = AlignedLayout {
        video_info: laid_out,
        alignment: VideoAlignment::new(1, 2, 3, 4, [127, 0, 0, 0]),
    };

    let mut pool = SmithayBufferPool::new();
    let accepted = pool.set_config(&config, Some(given)).unwrap();
    let params = accepted.params.unwrap();
    match params.caps {
        Some(Caps::Video(stream)) => {
            assert_eq!(stream.format, VideoFormat::Bgrx);
            assert_eq!((stream.width, stream.height), (1366, 768));
            assert_eq!((stream.fps_n, stream.fps_d), (60, 1));
            assert_eq!(stream.n_planes, 1);
            assert_eq!(stream.offset, [0, 0, 0, 0]);
            assert_eq!(stream.stride, [5464, 0, 0, 0]);
            assert_eq!(stream.size, 5464 * 768);
        }
        _ => panic!("the stream was not handed back"),
    }
    assert_eq!(params.size, 5504 * 768);
    assert_eq!((params.min_buffers, params.max_buffers), (2, 4));
    let remembered = pool.state.video_info.unwrap();
    assert_eq!(remembered.stride, [5504, 0, 0, 0]);
    assert_eq!(remembered.size, 5504 * 768);
}

#[test]
fn a_layout_at_another_frame_rate_is_refused() {
    let mut pool = SmithayBufferPool::new();
    let mut slower = layout(5120, 127);
    slower.video_info.fps_n = 25;
    assert_eq!(
        pool.set_config(&proposal(127, 31), Some(slower)).unwrap_err(),
        ConfigError::Alignment
    );
    assert!(pool.state.video_info.is_none());
    let mut halved = layout(5120, 127);
    halved.video_info.fps_d = 2;
    assert_eq!(
        pool.set_config(&proposal(127, 31), Some(halved)).unwrap_err(),
        ConfigError::Alignment
    );
    assert!(pool.set_config(&proposal(127, 31), Some(layout(5120, 127))).is_ok());
}
