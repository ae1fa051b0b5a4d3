//! The swapchain: a small pool of buffers of one size and format, handed out
//! to the renderer one at a time together with their age.
//!
//! The age of a buffer is the number of frames since it last held the scene.
//! Zero means that its content is of no use and everything must be drawn anew.

use vstd::prelude::*;
use crate::allocators::{AllocError, BufferAllocator};
use crate::dmabuf::{BufferDescriptor, DescriptorView};
use crate::utils::Fourcc;

verus! {

/// The smallest pool: one buffer on display and one to draw into.
pub const MIN_SLOTS: usize = 2;
/// The largest pool.
pub const MAX_SLOTS: usize = 3;

/// A buffer of the pool and its age.
#[derive(Debug)]
pub struct Slot {
    buffer: BufferDescriptor,
    age: u8,
}

/// What a slot is, as a mathematical value.
pub struct SlotView {
    pub buffer: DescriptorView,
    pub age: u8,
}

/// Names a slot of a swapchain: its position and the identity of its buffer.
#[derive(Clone, Copy, Debug, PartialEq, Eq, Structural)]
pub struct SlotHandle {
    pub index: usize,
    pub id: u64,
}

/// What a swapchain is, as a mathematical value.
pub struct SwapchainView {
    pub width: u32,
    pub height: u32,
    pub fourcc: Fourcc,
    pub modifiers: Seq<u64>,
    pub capacity: nat,
    pub slots: Seq<SlotView>,
}

/// The slots of a swapchain: at most `capacity` buffers of one size and format.
pub struct SlotPool {
    width: u32,
    height: u32,
    fourcc: Fourcc,
    modifiers: Vec<u64>,
    capacity: usize,
    slots: Vec<Slot>,
}

/// A pool of buffers together with the backend that creates them, one by one
/// as they are needed.
pub struct Swapchain<A> {
    /// The backend that creates the buffers of this pool.
    pub allocator: A,
    pool: SlotPool,
}

/// The age one frame later. An age that cannot grow any further falls back to
/// zero: the buffer is then treated as holding nothing of use.
pub open spec fn spec_aged(age: u8) -> u8 {
    if age == u8::MAX {
        0u8
    } else {
        (age + 1) as u8
    }
}

/// The position of the first age that is zero, or the number of ages where
/// none is.
pub open spec fn spec_first_stale(ages: Seq<u8>) -> int
    decreases ages.len(),
{
    if ages.len() == 0 || ages[0] == 0 {
        0
    } else {
        1 + spec_first_stale(ages.subrange(1, ages.len() as int))
    }
}

/// The position of the greatest among the first `count` ages, the first of
/// them where several are equal; zero where `count` is zero.
pub open spec fn spec_oldest(ages: Seq<u8>, count: nat) -> int
    decreases count,
{
    if count <= 1 {
        0
    } else {
        let before = spec_oldest(ages, (count - 1) as nat);
        if ages[count - 1] > ages[before] {
            count - 1
        } else {
            before
        }
    }
}

impl SwapchainView {
    /// The ages of the slots, in the order of the slots.
    pub open spec fn ages(self) -> Seq<u8> {
        Seq::new(self.slots.len(), |i: int| self.slots[i].age)
    }

    /// Whether a buffer is one that this pool asks for: a valid descriptor of
    /// the pool's size and format.
    pub open spec fn fits(self, buffer: DescriptorView) -> bool {
        &&& buffer.wf()
        &&& buffer.width == self.width
        &&& buffer.height == self.height
        &&& buffer.format == self.fourcc
    }

    /// Whether some slot holds a buffer of the given identity.
    pub open spec fn knows(self, id: u64) -> bool {
        exists|i: int| 0 <= i < self.slots.len() && (#[trigger] self.slots[i]).buffer.id == id
    }

    /// Whether the pool can take the buffer in: it has room, the buffer fits,
    /// and no slot holds a buffer of the same identity.
    pub open spec fn admits(self, buffer: DescriptorView) -> bool {
        &&& self.slots.len() < self.capacity
        &&& self.fits(buffer)
        &&& !self.knows(buffer.id)
    }

    /// The invariant of a swapchain.
    pub open spec fn wf(self) -> bool {
        &&& MIN_SLOTS <= self.capacity <= MAX_SLOTS
        &&& self.slots.len() <= self.capacity
        &&& forall|i: int| 0 <= i < self.slots.len() ==> self.fits((#[trigger] self.slots[i]).buffer)
        &&& forall|i: int, j: int|
            0 <= i < j < self.slots.len() ==> self.slots[i].buffer.id != self.slots[j].buffer.id
    }

    /// Whether a handle names a slot of this pool as it is now.
    pub open spec fn names(self, slot: SlotHandle) -> bool {
        slot.index < self.slots.len() && self.slots[slot.index as int].buffer.id == slot.id
    }

    /// The slot that the next acquisition hands out. It is the least recently
    /// rendered one: the first slot whose age is zero; where no age is zero
    /// and the pool has room, a slot that is yet to be created, at the
    /// position behind the last; and in a full pool the slot of the greatest
    /// age.
    pub open spec fn choice(self) -> int {
        let stale = spec_first_stale(self.ages());
        if stale < self.slots.len() {
            stale
        } else if self.slots.len() < self.capacity {
            self.slots.len() as int
        } else {
            spec_oldest(self.ages(), self.slots.len())
        }
    }

    /// The pool after a new buffer took the position behind the last slot.
    pub open spec fn after_install(self, buffer: DescriptorView) -> SwapchainView {
        SwapchainView { slots: self.slots.push(SlotView { buffer, age: 0 }), ..self }
    }

    /// The pool after the slot at `index` was rendered: its age is one, and
    /// every other slot is one frame older.
    pub open spec fn after_render(self, index: int) -> SwapchainView {
        SwapchainView {
            slots: Seq::new(
                self.slots.len(),
                |i: int|
                    SlotView {
                        buffer: self.slots[i].buffer,
                        age: if i == index {
                            1u8
                        } else {
                            spec_aged(self.slots[i].age)
                        },
                    },
            ),
            ..self
        }
    }

    /// The pool without its buffers.
    pub open spec fn after_reset(self) -> SwapchainView {
        SwapchainView { slots: Seq::empty(), ..self }
    }

    /// One cycle: a slot is acquired, the buffer `fresh` being the one that
    /// the backend creates if the pool needs another, and is then rendered.
    /// The result is the pool after the cycle and the position of the slot.
    pub open spec fn after_cycle(self, fresh: DescriptorView) -> (SwapchainView, int) {
        let index = self.choice();
        let acquired = if index < self.slots.len() {
            self
        } else {
            self.after_install(fresh)
        };
        (acquired.after_render(index), index)
    }

    /// The pool after `count` cycles, the backend creating the buffers of
    /// `fresh` in their order, one in each cycle that needs one.
    pub open spec fn after_cycles(self, fresh: Seq<DescriptorView>, count: nat) -> SwapchainView
        decreases count,
    {
        if count == 0 {
            self
        } else {
            let before = self.after_cycles(fresh, (count - 1) as nat);
            before.after_cycle(fresh[before.slots.len() as int]).0
        }
    }
}

/// The first stale position lies within the ages or just behind them; no age
/// before it is zero, and the age at it, if there is one, is zero.
pub proof fn lemma_first_stale(ages: Seq<u8>)
    ensures
        0 <= spec_first_stale(ages) <= ages.len(),
        forall|i: int| 0 <= i < spec_first_stale(ages) ==> #[trigger] ages[i] != 0,
        spec_first_stale(ages) < ages.len() ==> ages[spec_first_stale(ages)] == 0,
    decreases ages.len(),
{
    if ages.len() == 0 || ages[0] == 0 {
    } else {
        let rest = ages.subrange(1, ages.len() as int);
        lemma_first_stale(rest);
        let k = spec_first_stale(rest);
        assert forall|i: int| 0 <= i < 1 + k implies #[trigger] ages[i] != 0 by {
            if i > 0 {
                assert(ages[i] == rest[i - 1]);
            }
        }
        if 1 + k < ages.len() {
            assert(ages[1 + k] == rest[k]);
        }
    }
}

/// The oldest position lies within the first `count` ages; no age among them
/// is greater than the one at it, and every age before it is less.
pub proof fn lemma_oldest(ages: Seq<u8>, count: nat)
    requires
        1 <= count <= ages.len(),
    ensures
        0 <= spec_oldest(ages, count) < count,
        forall|i: int| 0 <= i < count ==> #[trigger] ages[i] <= ages[spec_oldest(ages, count)],
        forall|i: int|
            0 <= i < spec_oldest(ages, count) ==> #[trigger] ages[i] < ages[spec_oldest(ages, count)],
    decreases count,
{
    if count > 1 {
        lemma_oldest(ages, (count - 1) as nat);
    }
}

/// A position whose age is greater than every age before it and not less than
/// any age behind it is the oldest position.
proof fn lemma_oldest_is(ages: Seq<u8>, count: nat, position: int)
    requires
        1 <= count <= ages.len(),
        0 <= position < count,
        forall|i: int| 0 <= i < position ==> #[trigger] ages[i] < ages[position],
        forall|i: int| position <= i < count ==> #[trigger] ages[i] <= ages[position],
    ensures
        spec_oldest(ages, count) == position,
{
    lemma_oldest(ages, count);
    let found = spec_oldest(ages, count);
    if found < position {
        assert(ages[found] < ages[position]);
        assert(ages[position] <= ages[found]);
    } else if found > position {
        assert(ages[position] < ages[found]);
    }
}

/// Where no age is zero, the first stale position is the number of ages.
proof fn lemma_none_stale(ages: Seq<u8>)
    requires
        forall|i: int| 0 <= i < ages.len() ==> #[trigger] ages[i] != 0,
    ensures
        spec_first_stale(ages) == ages.len(),
{
    lemma_first_stale(ages);
}

/// The state of a fresh pool after `count` cycles, `count` being no more
/// than the capacity: every cycle has created one slot, the slot at position
/// `i` holds the buffer `fresh[i]`, and its age is the number of cycles since
/// the one that created it.
proof fn lemma_filling(chain: SwapchainView, fresh: Seq<DescriptorView>, count: nat)
    requires
        chain.wf(),
        chain.slots.len() == 0,
        count <= chain.capacity,
    ensures
        ({
            let filled = chain.after_cycles(fresh, count);
            &&& filled == SwapchainView { slots: filled.slots, ..chain }
            &&& filled.slots.len() == count
            &&& forall|i: int|
                0 <= i < count ==> (#[trigger] filled.slots[i]).buffer == fresh[i]
                    && filled.slots[i].age == count - i
        }),
    decreases count,
{
    if count > 0 {
        let before = chain.after_cycles(fresh, (count - 1) as nat);
        lemma_filling(chain, fresh, (count - 1) as nat);
        assert forall|i: int| 0 <= i < before.ages().len() implies #[trigger] before.ages()[i]
            != 0 by {
            assert(before.slots[i].age == count - 1 - i);
        }
        lemma_none_stale(before.ages());
        assert(before.choice() == count - 1);
        let filled = chain.after_cycles(fresh, count);
        assert(filled == before.after_install(fresh[count - 1]).after_render(count - 1));
        assert forall|i: int| 0 <= i < count implies (#[trigger] filled.slots[i]).buffer == fresh[i]
            && filled.slots[i].age == count - i by {
            if i < count - 1 {
                assert(before.slots[i].age == count - 1 - i);
            }
        }
    }
}

/// In a fresh pool of capacity K, the first acquisition hands out the slot at
/// position zero, and so does the one that follows K cycles of acquiring and
/// rendering: the slot then holds the buffer that the first cycle created, and
/// its age is K. The pool creates no buffer for it.
pub proof fn lemma_rotation(chain: SwapchainView, fresh: Seq<DescriptorView>)
    requires
        chain.wf(),
        chain.slots.len() == 0,
    ensures
        ({
            let first = chain.after_cycle(fresh[0]);
            let cycled = chain.after_cycles(fresh, chain.capacity);
            &&& first.1 == 0
            &&& first.0.slots[0].buffer == fresh[0]
            &&& cycled.choice() == 0
            &&& cycled.slots.len() == chain.capacity
            &&& cycled.slots[0].buffer == fresh[0]
            &&& cycled.slots[0].age == chain.capacity
        }),
{
    assert(chain.ages() =~= Seq::<u8>::empty());
    assert(chain.choice() == 0);
    let cycled = chain.after_cycles(fresh, chain.capacity);
    lemma_filling(chain, fresh, chain.capacity);
    let ages = cycled.ages();
    assert forall|i: int| 0 <= i < ages.len() implies #[trigger] ages[i] != 0 by {
        assert(cycled.slots[i].age == chain.capacity - i);
    }
    lemma_none_stale(ages);
    assert forall|i: int| 0 <= i < ages.len() implies #[trigger] ages[i] <= ages[0] by {
        assert(cycled.slots[i].age == chain.capacity - i);
        assert(cycled.slots[0].age == chain.capacity - 0);
    }
    lemma_oldest_is(ages, ages.len(), 0);
}

/// A pool that was reset hands out a slot that is yet to be created, whose
/// age will be zero.
pub proof fn lemma_fresh_after_reset(chain: SwapchainView, fresh: DescriptorView)
    requires
        chain.wf(),
    ensures
        chain.after_reset().wf(),
        chain.after_reset().choice() == 0,
        chain.after_reset().after_install(fresh).slots[0].age == 0,
{
    assert(chain.after_reset().ages() =~= Seq::<u8>::empty());
}

/// The age one frame later.
pub fn aged(age: u8) -> (next: u8)
    ensures
        next == spec_aged(age),
{
    match age.checked_add(1) {
        Some(next) => next,
        None => 0,
    }
}

impl Slot {
    pub closed spec fn view(&self) -> SlotView {
        SlotView { buffer: self.buffer@, age: self.age }
    }

    /// The buffer of the slot, without its age.
    pub fn into_buffer(self) -> (buffer: BufferDescriptor)
        ensures
            buffer@ == self@.buffer,
    {
        self.buffer
    }
}

/// The views of the slots, in the order of the slots.
pub open spec fn spec_slot_views(slots: Seq<Slot>) -> Seq<SlotView> {
    Seq::new(slots.len(), |i: int| slots[i]@)
}

impl SlotPool {
    pub closed spec fn view(&self) -> SwapchainView {
        SwapchainView {
            width: self.width,
            height: self.height,
            fourcc: self.fourcc,
            modifiers: self.modifiers@,
            capacity: self.capacity as nat,
            slots: spec_slot_views(self.slots@),
        }
    }

    /// The invariant that every swapchain meets.
    pub open spec fn wf(&self) -> bool {
        self@.wf()
    }

    #[verifier::type_invariant]
    closed spec fn inv(&self) -> bool {
        self.wf()
    }

    /// A pool without buffers, for buffers of the given size, format and
    /// layouts. The result is `None` where the capacity is not one that a
    /// pool can have.
    pub fn new(
        width: u32,
        height: u32,
        fourcc: Fourcc,
        modifiers: Vec<u64>,
        capacity: usize,
    ) -> (chain: Option<SlotPool>)
        ensures
            chain.is_some() == (MIN_SLOTS <= capacity <= MAX_SLOTS),
            chain matches Some(chain) ==> chain.wf() && chain@ == (SwapchainView {
                width,
                height,
                fourcc,
                modifiers: modifiers@,
                capacity: capacity as nat,
                slots: Seq::empty(),
            }),
    {
        if capacity < MIN_SLOTS || capacity > MAX_SLOTS {
            return None;
        }
        let chain = SlotPool { width, height, fourcc, modifiers, capacity, slots: Vec::new() };
        assert(chain@.slots =~= Seq::<SlotView>::empty());
        Some(chain)
    }

    /// The number of buffers that the pool holds at most.
    pub fn capacity(&self) -> (capacity: usize)
        ensures
            capacity == self@.capacity,
            self.wf(),
    {
        proof {
            use_type_invariant(self);
        }
        self.capacity
    }

    /// The number of buffers that the pool holds.
    pub fn len(&self) -> (len: usize)
        ensures
            len == self@.slots.len(),
            self.wf(),
    {
        proof {
            use_type_invariant(self);
        }
        self.slots.len()
    }

    /// The format of the buffers.
    pub fn format(&self) -> (fourcc: Fourcc)
        ensures
            fourcc == self@.fourcc,
    {
        self.fourcc
    }

    /// The layouts that the buffers may have.
    pub fn modifiers(&self) -> (modifiers: &Vec<u64>)
        ensures
            modifiers@ == self@.modifiers,
    {
        &self.modifiers
    }

    /// The buffer of a slot, or `None` where the handle names no slot.
    pub fn buffer(&self, slot: SlotHandle) -> (buffer: Option<&BufferDescriptor>)
        ensures
            buffer.is_some() == self@.names(slot),
            buffer matches Some(buffer) ==> buffer@ == self@.slots[slot.index as int].buffer,
    {
        if slot.index < self.slots.len() && self.slots[slot.index].buffer.id() == slot.id {
            Some(&self.slots[slot.index].buffer)
        } else {
            None
        }
    }

    /// The age of a slot, or `None` where the handle names no slot.
    pub fn age(&self, slot: SlotHandle) -> (age: Option<u8>)
        ensures
            age.is_some() == self@.names(slot),
            age matches Some(age) ==> age == self@.slots[slot.index as int].age,
    {
        if slot.index < self.slots.len() && self.slots[slot.index].buffer.id() == slot.id {
            Some(self.slots[slot.index].age)
        } else {
            None
        }
    }

    /// The slot that the next acquisition hands out, with its age, where the
    /// pool holds it already; `None` where the pool has to create a buffer
    /// first.
    pub fn next_slot(&self) -> (next: Option<(SlotHandle, u8)>)
        ensures
            self.wf(),
            next.is_some() == (self@.choice() < self@.slots.len()),
            next matches Some((slot, age)) ==> {
                &&& slot.index == self@.choice()
                &&& self@.names(slot)
                &&& age == self@.slots[slot.index as int].age
            },
    {
        proof {
            use_type_invariant(self);
        }
        let ghost ages = self@.ages();
        let mut stale: usize = 0;
        assert(ages.subrange(0, ages.len() as int) == ages);
        while stale < self.slots.len() && self.slots[stale].age != 0
            invariant
                stale <= self.slots.len(),
                ages == self@.ages(),
                spec_first_stale(ages) == stale + spec_first_stale(
                    ages.subrange(stale as int, ages.len() as int),
                ),
            decreases self.slots.len() - stale,
        {
            proof {
                let rest = ages.subrange(stale as int, ages.len() as int);
                assert(rest[0] == self.slots@[stale as int]@.age);
                assert(rest.subrange(1, rest.len() as int) == ages.subrange(
                    stale as int + 1,
                    ages.len() as int,
                ));
            }
            stale += 1;
        }
        proof {
            if stale < self.slots.len() {
                let rest = ages.subrange(stale as int, ages.len() as int);
                assert(rest[0] == self.slots@[stale as int]@.age);
            }
        }
        if stale < self.slots.len() {
            let slot = SlotHandle { index: stale, id: self.slots[stale].buffer.id() };
            return Some((slot, self.slots[stale].age));
        }
        if self.slots.len() < self.capacity {
            return None;
        }
        let mut oldest: usize = 0;
        let mut count: usize = 1;
        while count < self.slots.len()
            invariant
                1 <= count <= self.slots.len(),
                ages == self@.ages(),
                oldest == spec_oldest(ages, count as nat),
                oldest < count,
            decreases self.slots.len() - count,
        {
            assert(ages[count as int] == self.slots@[count as int]@.age);
            assert(ages[oldest as int] == self.slots@[oldest as int]@.age);
            if self.slots[count].age > self.slots[oldest].age {
                oldest = count;
            }
            count += 1;
        }
        let slot = SlotHandle { index: oldest, id: self.slots[oldest].buffer.id() };
        Some((slot, self.slots[oldest].age))
    }

    /// Whether a slot holds a buffer of the given identity.
    pub fn knows(&self, id: u64) -> (known: bool)
        ensures
            known == self@.knows(id),
    {
        let mut i: usize = 0;
        while i < self.slots.len()
            invariant
                i <= self.slots.len(),
                forall|k: int| 0 <= k < i ==> (#[trigger] self@.slots[k]).buffer.id != id,
            decreases self.slots.len() - i,
        {
            if self.slots[i].buffer.id() == id {
                assert(self@.slots[i as int].buffer.id == id);
                return true;
            }
            i += 1;
        }
        false
    }

    /// Takes a buffer into the pool, as a new slot of age zero behind the
    /// last. A buffer that the pool does not admit is handed back, and the
    /// pool stays as it was.
    pub fn install(&mut self, buffer: BufferDescriptor) -> (result: Result<
        (SlotHandle, u8),
        BufferDescriptor,
    >)
        ensures
            final(self).wf(),
            match result {
                Ok((slot, age)) => {
                    &&& old(self)@.admits(buffer@)
                    &&& final(self)@ == old(self)@.after_install(buffer@)
                    &&& slot == (SlotHandle { index: old(self)@.slots.len() as usize, id: buffer@.id })
                    &&& age == 0
                },
                Err(refused) => {
                    &&& !old(self)@.admits(buffer@)
                    &&& refused@ == buffer@
                    &&& final(self)@ == old(self)@
                },
            },
    {
        proof {
            use_type_invariant(&*self);
        }
        let id = buffer.id();
        if self.slots.len() >= self.capacity || buffer.width() != self.width || buffer.height()
            != self.height || buffer.format() != self.fourcc || self.knows(id) {
            return Err(buffer);
        }
        let index = self.slots.len();
        let ghost before = self@;
        let mut slots: Vec<Slot> = Vec::new();
        std::mem::swap(&mut self.slots, &mut slots);
        proof {
            assert(spec_slot_views(self.slots@) =~= Seq::<SlotView>::empty());
        }
        slots.push(Slot { buffer, age: 0 });
        proof {
            assert(spec_slot_views(slots@) =~= before.slots.push(SlotView { buffer: buffer@, age: 0 }));
            let after = before.after_install(buffer@);
            assert forall|i: int| 0 <= i < after.slots.len() implies after.fits(
                (#[trigger] after.slots[i]).buffer,
            ) by {
                if i < before.slots.len() {
                    assert(after.slots[i] == before.slots[i]);
                }
            }
            assert forall|i: int, j: int| 0 <= i < j < after.slots.len() implies after.slots[i].buffer.id
                != after.slots[j].buffer.id by {
                assert(after.slots[i] == before.slots[i]);
                if j < before.slots.len() {
                    assert(after.slots[j] == before.slots[j]);
                }
            }
        }
        self.slots = slots;
        Ok((SlotHandle { index, id }, 0))
    }

    /// Records that a slot was rendered: its age becomes one, and every other
    /// slot grows one frame older. A handle that names no slot of the pool,
    /// such as one from before a reset, changes nothing.
    pub fn mark_rendered(&mut self, slot: SlotHandle)
        ensures
            final(self).wf(),
            old(self)@.names(slot) ==> final(self)@ == old(self)@.after_render(slot.index as int),
            !old(self)@.names(slot) ==> final(self)@ == old(self)@,
    {
        proof {
            use_type_invariant(&*self);
        }
        if !(slot.index < self.slots.len() && self.slots[slot.index].buffer.id() == slot.id) {
            return ;
        }
        let ghost before = self@;
        let mut slots: Vec<Slot> = Vec::new();
        std::mem::swap(&mut self.slots, &mut slots);
        proof {
            assert(spec_slot_views(self.slots@) =~= Seq::<SlotView>::empty());
        }
        let mut i: usize = 0;
        while i < slots.len()
            invariant
                i <= slots.len(),
                slots@.len() == before.slots.len(),
                slot.index < slots.len(),
                forall|k: int|
                    0 <= k < slots.len() ==> (#[trigger] slots@[k])@.buffer == before.slots[k].buffer,
                forall|k: int|
                    0 <= k < i ==> (#[trigger] slots@[k])@.age == before.after_render(
                        slot.index as int,
                    ).slots[k].age,
                forall|k: int| i <= k < slots.len() ==> (#[trigger] slots@[k])@.age == before.slots[k].age,
            decreases slots.len() - i,
        {
            let next = if i == slot.index {
                1
            } else {
                aged(slots[i].age)
            };
            slots[i].age = next;
            i += 1;
        }
        proof {
            let after = before.after_render(slot.index as int);
            assert(spec_slot_views(slots@) =~= after.slots);
            assert forall|k: int| 0 <= k < after.slots.len() implies after.fits(
                (#[trigger] after.slots[k]).buffer,
            ) by {
                assert(before.fits(before.slots[k].buffer));
            }
        }
        self.slots = slots;
    }

    /// Takes every slot out of the pool.
    pub fn take_slots(&mut self) -> (slots: Vec<Slot>)
        ensures
            final(self).wf(),
            final(self)@ == old(self)@.after_reset(),
            spec_slot_views(slots@) == old(self)@.slots,
    {
        proof {
            use_type_invariant(&*self);
        }
        let mut slots: Vec<Slot> = Vec::new();
        std::mem::swap(&mut self.slots, &mut slots);
        proof {
            assert(spec_slot_views(self.slots@) =~= Seq::<SlotView>::empty());
        }
        slots
    }

    /// Changes the size of the buffers that the pool holds. A pool that has
    /// this size already stays as it is; any other pool gives up its slots,
    /// which are the result.
    pub fn resize(&mut self, width: u32, height: u32) -> (dropped: Vec<Slot>)
        ensures
            final(self).wf(),
            old(self)@.width == width && old(self)@.height == height ==> final(self)@ == old(self)@
                && dropped@.len() == 0,
            !(old(self)@.width == width && old(self)@.height == height) ==> final(self)@ == (
            SwapchainView { width, height, ..old(self)@.after_reset() }) && spec_slot_views(dropped@)
                == old(self)@.slots,
    {
        proof {
            use_type_invariant(&*self);
        }
        if self.width == width && self.height == height {
            return Vec::new();
        }
        let dropped = self.take_slots();
        proof {
            use_type_invariant(&*self);
        }
        self.width = width;
        self.height = height;
        dropped
    }
}

impl<A: BufferAllocator> Swapchain<A> {
    pub closed spec fn view(&self) -> SwapchainView {
        self.pool@
    }

    /// The invariant that every swapchain meets.
    pub open spec fn wf(&self) -> bool {
        self@.wf()
    }

    /// A swapchain without buffers, for buffers of the given size, format and
    /// layouts. The result is `None` where the capacity is not one that a
    /// pool can have.
    pub fn new(
        allocator: A,
        width: u32,
        height: u32,
        fourcc: Fourcc,
        modifiers: Vec<u64>,
        capacity: usize,
    ) -> (chain: Option<Swapchain<A>>)
        ensures
            chain.is_some() == (MIN_SLOTS <= capacity <= MAX_SLOTS),
            chain matches Some(chain) ==> chain.wf() && chain@ == (SwapchainView {
                width,
                height,
                fourcc,
                modifiers: modifiers@,
                capacity: capacity as nat,
                slots: Seq::empty(),
            }),
    {
        match SlotPool::new(width, height, fourcc, modifiers, capacity) {
            Some(pool) => Some(Swapchain { allocator, pool }),
            None => None,
        }
    }

    /// The slots of the swapchain.
    pub fn pool(&self) -> (pool: &SlotPool)
        ensures
            pool@ == self@,
            self.wf(),
    {
        let capacity = self.pool.capacity();
        &self.pool
    }

    /// Hands out the least recently rendered slot and its age.
    ///
    /// Where the pool holds the slot already, the call succeeds and changes
    /// nothing. Where the pool has to create a buffer first, the outcome is
    /// the backend's: its error is passed on; a buffer that the pool does not
    /// admit goes back to the backend and is reported as a failed creation;
    /// a buffer that it admits becomes a new slot of age zero. A failed call
    /// leaves the pool as it was.
    pub fn acquire(&mut self) -> (result: Result<(SlotHandle, u8), AllocError>)
        ensures
            final(self).wf(),
            old(self)@.choice() < old(self)@.slots.len() ==> {
                &&& final(self)@ == old(self)@
                &&& result matches Ok((slot, age))
                &&& slot.index == old(self)@.choice()
                &&& old(self)@.names(slot)
                &&& age == old(self)@.slots[slot.index as int].age
            },
            old(self)@.choice() >= old(self)@.slots.len() ==> match result {
                Ok((slot, age)) => {
                    &&& slot.index == old(self)@.choice()
                    &&& age == 0
                    &&& final(self)@.names(slot)
                    &&& old(self)@.admits(final(self)@.slots[slot.index as int].buffer)
                    &&& final(self)@ == old(self)@.after_install(
                        final(self)@.slots[slot.index as int].buffer,
                    )
                },
                Err(_) => final(self)@ == old(self)@,
            },
    {
        match self.pool.next_slot() {
            Some(found) => Ok(found),
            None => {
                let created = self.allocator.create_buffer(
                    self.pool.width,
                    self.pool.height,
                    self.pool.fourcc,
                    &self.pool.modifiers,
                );
                match created {
                    Err(error) => Err(error),
                    Ok(buffer) => match self.pool.install(buffer) {
                        Ok(found) => Ok(found),
                        Err(refused) => {
                            self.allocator.destroy_buffer(refused);
                            Err(
                                AllocError::BufferCreation(
                                    "the backend created a buffer that the pool did not ask for".to_owned(),
                                ),
                            )
                        },
                    },
                }
            },
        }
    }

    /// Records that a slot was rendered: its age becomes one, and every other
    /// slot grows one frame older. A handle that names no slot of the pool,
    /// such as one from before a reset, changes nothing.
    pub fn mark_rendered(&mut self, slot: SlotHandle)
        ensures
            final(self).wf(),
            old(self)@.names(slot) ==> final(self)@ == old(self)@.after_render(slot.index as int),
            !old(self)@.names(slot) ==> final(self)@ == old(self)@,
    {
        self.pool.mark_rendered(slot)
    }

    /// Drops every buffer of the pool and hands it back to the backend. The
    /// next acquisition creates a buffer, whose age is zero.
    pub fn reset(&mut self)
        ensures
            final(self).wf(),
            final(self)@ == old(self)@.after_reset(),
    {
        let dropped = self.pool.take_slots();
        self.release(dropped);
    }

    /// Changes the size of the buffers that the swapchain hands out. A
    /// swapchain that has this size already stays as it is; any other loses
    /// its buffers, which go back to the backend.
    pub fn resize(&mut self, width: u32, height: u32)
        ensures
            final(self).wf(),
            old(self)@.width == width && old(self)@.height == height ==> final(self)@ == old(self)@,
            !(old(self)@.width == width && old(self)@.height == height) ==> final(self)@ == (
            SwapchainView { width, height, ..old(self)@.after_reset() }),
    {
        let dropped = self.pool.resize(width, height);
        self.release(dropped);
    }

    /// Hands slots that left the pool back to the backend.
    fn release(&mut self, slots: Vec<Slot>)
        ensures
            final(self)@ == old(self)@,
    {
        let mut slots = slots;
        while slots.len() > 0
            invariant
                self@ == old(self)@,
            decreases slots.len(),
        {
            match slots.pop() {
                Some(slot) => {
                    self.allocator.destroy_buffer(slot.into_buffer());
                },
                None => {},
            }
        }
    }
}

} // verus!
