use wayland_display::allocators::{AllocError, BufferAllocator};
use wayland_display::dmabuf::{BufferDescriptor, DmabufFlags};
use wayland_display::swapchain::{aged, SlotHandle, Swapchain, MAX_SLOTS, MIN_SLOTS};
use wayland_display::utils::{Fourcc, DRM_FORMAT_ARGB8888, DRM_FORMAT_MOD_LINEAR};

struct CountingAllocator {
    created: u64,
    destroyed: Vec<u64>,
    fail: bool,
    wrong_size: bool,
}

fn counting() -> CountingAllocator {
    CountingAllocator { created: 0, destroyed: Vec::new(), fail: false, wrong_size: false }
}

impl BufferAllocator for CountingAllocator {
    fn create_buffer(
        &mut self,
        width: u32,
        height: u32,
        fourcc: Fourcc,
        _modifiers: &Vec<u64>,
    ) -> Result<BufferDescriptor, AllocError> {
        if self.fail {
            return Err(AllocError::DeviceOpen("no device".to_string()));
        }
        self.created += 1;
        let width = if self.wrong_size { width + 1 } else { width };
        let mut builder = BufferDescriptor::builder(
            100 + self.created,
            width,
            height,
            fourcc,
            DRM_FORMAT_MOD_LINEAR,
            DmabufFlags::empty(),
        );
        assert!(builder.add_plane(10 + self.created as i32, 0, 0, width * 4));
        Ok(builder.build().expect("a valid descriptor"))
    }

    fn destroy_buffer(&mut self, buffer: BufferDescriptor) {
        self.destroyed.push(buffer.id());
    }
}

fn chain(capacity: usize) -> Swapchain<CountingAllocator> {
    Swapchain::new(
        counting(),
        64,
        32,
        Fourcc::new(DRM_FORMAT_ARGB8888),
        vec![DRM_FORMAT_MOD_LINEAR],
        capacity,
    )
    .expect("a swapchain")
}

#[test]
fn capacity_must_be_two_or_three() {
    assert_eq!((MIN_SLOTS, MAX_SLOTS), (2, 3));
    for capacity in [0usize, 1, 4, 100] {
        assert!(Swapchain::new(counting(), 1, 1, Fourcc::new(0), vec![], capacity).is_none());
    }
    assert!(Swapchain::new(counting(), 1, 1, Fourcc::new(0), vec![], 2).is_some());
    assert!(Swapchain::new(counting(), 1, 1, Fourcc::new(0), vec![], 3).is_some());
}

#[test]
fn first_acquisition_creates_a_buffer_of_age_zero() {
    let mut chain = chain(2);
    let (slot, age) = chain.acquire().unwrap();
    assert_eq!(slot, SlotHandle { index: 0, id: 101 });
    assert_eq!(age, 0);
    assert_eq!(chain.pool().len(), 1);
    assert_eq!(chain.pool().capacity(), 2);
    let buffer = chain.pool().buffer(slot).unwrap();
    assert_eq!((buffer.width(), buffer.height()), (64, 32));
    assert_eq!(chain.pool().age(slot), Some(0));
}

#[test]
fn after_k_cycles_the_first_buffer_comes_back_with_age_k() {
    for capacity in [2usize, 3] {
        let mut chain = chain(capacity);
        let mut handles = Vec::new();
        for cycle in 0..capacity {
            let (slot, age) = chain.acquire().unwrap();
            assert_eq!(age, 0);
            assert_eq!(slot.index, cycle);
            chain.mark_rendered(slot);
            handles.push(slot);
        }
        let (slot, age) = chain.acquire().unwrap();
        assert_eq!(slot, handles[0]);
        assert_eq!(age as usize, capacity);
        assert_eq!(chain.allocator.created as usize, capacity);
        chain.mark_rendered(slot);
        let (next, age) = chain.acquire().unwrap();
        assert_eq!(next, handles[1]);
        assert_eq!(age as usize, capacity);
    }
}

#[test]
fn rendering_sets_age_one_and_ages_the_others() {
    let mut chain = chain(3);
    let (first, _) = chain.acquire().unwrap();
    chain.mark_rendered(first);
    let (second, _) = chain.acquire().unwrap();
    chain.mark_rendered(second);
    assert_eq!(chain.pool().age(first), Some(2));
    assert_eq!(chain.pool().age(second), Some(1));
    chain.mark_rendered(second);
    assert_eq!(chain.pool().age(first), Some(3));
    assert_eq!(chain.pool().age(second), Some(1));
}

#[test]
fn a_slot_that_was_not_rendered_is_handed_out_again() {
    let mut chain = chain(3);
    let (first, age) = chain.acquire().unwrap();
    assert_eq!(age, 0);
    let (again, age) = chain.acquire().unwrap();
    assert_eq!(again, first);
    assert_eq!(age, 0);
    assert_eq!(chain.allocator.created, 1);
}

#[test]
fn age_falls_back_to_zero_when_it_cannot_grow() {
    assert_eq!(aged(0), 1);
    assert_eq!(aged(1), 2);
    assert_eq!(aged(254), 255);
    assert_eq!(aged(255), 0);
    let mut chain = chain(2);
    let (first, _) = chain.acquire().unwrap();
    chain.mark_rendered(first);
    let (second, _) = chain.acquire().unwrap();
    chain.mark_rendered(second);
    for _ in 0..253 {
        chain.mark_rendered(second);
    }
    assert_eq!(chain.pool().age(first), Some(255));
    chain.mark_rendered(second);
    assert_eq!(chain.pool().age(first), Some(0));
    let (stale, age) = chain.acquire().unwrap();
    assert_eq!(stale, first);
    assert_eq!(age, 0);
}

#[test]
fn reset_then_acquire_yields_age_zero() {
    let mut chain = chain(2);
    let (first, _) = chain.acquire().unwrap();
    chain.mark_rendered(first);
    let (second, _) = chain.acquire().unwrap();
    chain.mark_rendered(second);
    chain.reset();
    assert_eq!(chain.pool().len(), 0);
    let mut destroyed = chain.allocator.destroyed.clone();
    destroyed.sort();
    assert_eq!(destroyed, vec![101, 102]);
    let (slot, age) = chain.acquire().unwrap();
    assert_eq!(age, 0);
    assert_eq!(slot, SlotHandle { index: 0, id: 103 });
}

#[test]
fn a_handle_from_before_a_reset_changes_nothing() {
    let mut chain = chain(2);
    let (old, _) = chain.acquire().unwrap();
    chain.mark_rendered(old);
    chain.reset();
    let (fresh, _) = chain.acquire().unwrap();
    chain.mark_rendered(old);
    assert_eq!(chain.pool().age(fresh), Some(0));
    assert_eq!(chain.pool().age(old), None);
    assert!(chain.pool().buffer(old).is_none());
}

#[test]
fn resize_drops_the_buffers_only_when_the_size_changes() {
    let mut chain = chain(2);
    let (slot, _) = chain.acquire().unwrap();
    chain.mark_rendered(slot);
    chain.resize(64, 32);
    assert_eq!(chain.pool().len(), 1);
    chain.resize(128, 32);
    assert_eq!(chain.pool().len(), 0);
    assert_eq!(chain.allocator.destroyed, vec![101]);
    let (slot, age) = chain.acquire().unwrap();
    assert_eq!(age, 0);
    assert_eq!(chain.pool().buffer(slot).unwrap().width(), 128);
}

#[test]
fn a_failed_allocation_leaves_the_swapchain_usable() {
    let mut chain = chain(2);
    chain.allocator.fail = true;
    match chain.acquire() {
        Err(AllocError::DeviceOpen(cause)) => assert_eq!(cause, "no device"),
        other => panic!("unexpected {:?}", other.map(|found| found.1)),
    }
    assert_eq!(chain.pool().len(), 0);
    chain.allocator.fail = false;
    let (slot, age) = chain.acquire().unwrap();
    assert_eq!((slot.index, age), (0, 0));
}

#[test]
fn a_buffer_of_the_wrong_size_is_refused_and_handed_back() {
    let mut chain = chain(2);
    chain.allocator.wrong_size = true;
    assert!(matches!(chain.acquire(), Err(AllocError::BufferCreation(_))));
    assert_eq!(chain.pool().len(), 0);
    assert_eq!(chain.allocator.destroyed, vec![101]);
}

#[test]
fn the_pool_knows_its_buffers_and_refuses_a_second_of_one_identity() {
    let mut chain = chain(3);
    let (slot, _) = chain.acquire().unwrap();
    assert!(chain.pool().knows(slot.id));
    assert!(!chain.pool().knows(7));
    assert_eq!(chain.pool().format(), Fourcc::new(DRM_FORMAT_ARGB8888));
    assert_eq!(chain.pool().modifiers(), &vec![DRM_FORMAT_MOD_LINEAR]);
    assert_eq!(chain.pool().next_slot(), Some((slot, 0)));
}
