//! The client's side of the capture protocol: the events of a capture are
//! put together into the buffer descriptor of the frame.

use vstd::prelude::*;
use crate::dmabuf::{
    spec_holds_fd, spec_known_flags, spec_with_plane, BufferDescriptor, DescriptorBuilder,
    DescriptorView, DmabufFlags, Plane, MAX_PLANES,
};
use crate::dmabuf::{lemma_with_plane_appends, FLAG_Y_INVERT};
use crate::export_dmabuf::{
    spec_all_duplicated, spec_frame_events, CancelReason, DuplicatedPlane, FrameEvent,
};
use crate::utils::{join_u64, lemma_split_join, spec_join_u64, Fourcc};

verus! {

/// What an event led to.
#[derive(Debug)]
pub enum Outcome {
    /// The frame is not finished.
    Pending,
    /// The frame is finished.
    Frame(BufferDescriptor),
    /// The capture was cancelled.
    Cancelled(CancelReason),
    /// The event has no place in the protocol here: a plane or an end
    /// without a frame that was opened, a plane that the frame cannot take,
    /// or an end of a frame whose planes make no valid buffer.
    Violation,
}

/// The frame that is being put together.
#[derive(Debug)]
pub struct State {
    dmabuf: Option<DescriptorBuilder>,
}

/// The frame that an opening event opens, without planes yet.
pub open spec fn spec_opened(id: u64, event: FrameEvent) -> DescriptorView
    recommends
        event is Frame,
{
    DescriptorView {
        id,
        width: event->width,
        height: event->height,
        format: Fourcc { code: event->format },
        modifier: spec_join_u64(event->mod_high, event->mod_low),
        flags: spec_known_flags(event->buffer_flags),
        planes: Seq::empty(),
    }
}

/// The plane that a plane event carries.
pub open spec fn spec_carried(event: FrameEvent) -> Plane
    recommends
        event is Object,
{
    Plane {
        fd: event->fd,
        plane_idx: event->plane_index,
        offset: event->offset,
        stride: event->stride,
    }
}

impl State {
    /// The frame that is open, as far as it is put together.
    pub closed spec fn view(&self) -> Option<DescriptorView> {
        match self.dmabuf {
            Some(builder) => Some(builder@),
            None => None,
        }
    }

    /// A state without a frame.
    pub fn new() -> (state: State)
        ensures
            state@.is_none(),
    {
        State { dmabuf: None }
    }

    /// Takes in an event of the capture. `id` is the identity that the frame
    /// gets if the event opens one.
    ///
    /// An opening event opens a frame, in place of any that was open. A plane
    /// event adds its plane to the open frame. A closing event finishes the
    /// open frame and hands it out. A cancellation ends the capture. After a
    /// closing event and after a cancellation no frame is open.
    pub fn handle_event(&mut self, id: u64, event: FrameEvent) -> (outcome: Outcome)
        ensures
            final(self)@ == spec_after_event(old(self)@, id, event),
            match event {
                FrameEvent::Frame { .. } => {
                    &&& outcome is Pending
                    &&& final(self)@ == Some(spec_opened(id, event))
                },
                FrameEvent::Object { .. } => match old(self)@ {
                    None => outcome is Violation && final(self)@.is_none(),
                    Some(open) => if open.planes.len() < MAX_PLANES && event->fd >= 0 && !spec_holds_fd(
                        open.planes,
                        event->fd,
                    ) {
                        &&& outcome is Pending
                        &&& final(self)@ == Some(
                            DescriptorView {
                                planes: spec_with_plane(open.planes, spec_carried(event)),
                                ..open
                            },
                        )
                    } else {
                        outcome is Violation && final(self)@ == old(self)@
                    },
                },
                FrameEvent::Ready { .. } => {
                    &&& final(self)@.is_none()
                    &&& match old(self)@ {
                        Some(open) => if open.wf() {
                            outcome matches Outcome::Frame(frame) && frame@ == open && frame.wf()
                        } else {
                            outcome is Violation
                        },
                        None => outcome is Violation,
                    }
                },
                FrameEvent::Cancel { reason } => {
                    &&& outcome matches Outcome::Cancelled(why) && why == reason
                    &&& final(self)@.is_none()
                },
            },
    {
        match event {
            FrameEvent::Frame { width, height, format, buffer_flags, mod_high, mod_low, .. } => {
                let modifier = join_u64(mod_high, mod_low);
                self.dmabuf = Some(
                    BufferDescriptor::builder(
                        id,
                        width,
                        height,
                        Fourcc::new(format),
                        modifier,
                        DmabufFlags::from_bits_truncate(buffer_flags),
                    ),
                );
                Outcome::Pending
            },
            FrameEvent::Object { fd, offset, stride, plane_index, .. } => {
                let mut open: Option<DescriptorBuilder> = None;
                std::mem::swap(&mut self.dmabuf, &mut open);
                match open {
                    Some(builder) => {
                        let mut builder = builder;
                        let added = builder.add_plane(fd, plane_index, offset, stride);
                        self.dmabuf = Some(builder);
                        if added {
                            Outcome::Pending
                        } else {
                            Outcome::Violation
                        }
                    },
                    None => Outcome::Violation,
                }
            },
            FrameEvent::Ready { .. } => {
                let mut open: Option<DescriptorBuilder> = None;
                std::mem::swap(&mut self.dmabuf, &mut open);
                match open {
                    Some(builder) => match builder.build() {
                        Some(frame) => Outcome::Frame(frame),
                        None => Outcome::Violation,
                    },
                    None => Outcome::Violation,
                }
            },
            FrameEvent::Cancel { reason } => {
                self.dmabuf = None;
                Outcome::Cancelled(reason)
            },
        }
    }
}

/// The frame that is open after an event was taken in.
pub open spec fn spec_after_event(open: Option<DescriptorView>, id: u64, event: FrameEvent) -> Option<
    DescriptorView,
> {
    match event {
        FrameEvent::Frame { .. } => Some(spec_opened(id, event)),
        FrameEvent::Object { .. } => match open {
            Some(frame) => if frame.planes.len() < MAX_PLANES && event->fd >= 0 && !spec_holds_fd(
                frame.planes,
                event->fd,
            ) {
                Some(
                    DescriptorView {
                        planes: spec_with_plane(frame.planes, spec_carried(event)),
                        ..frame
                    },
                )
            } else {
                open
            },
            None => None,
        },
        FrameEvent::Ready { .. } => None,
        FrameEvent::Cancel { .. } => None,
    }
}

/// The frame that is open after a run of events was taken in, one by one.
pub open spec fn spec_after_events(open: Option<DescriptorView>, id: u64, events: Seq<FrameEvent>) -> Option<
    DescriptorView,
>
    decreases events.len(),
{
    if events.len() == 0 {
        open
    } else {
        spec_after_event(spec_after_events(open, id, events.drop_last()), id, events.last())
    }
}

/// The frame that the client puts together from the events of a buffer: the
/// buffer as the server described it, with the identity that the client
/// gives it, the orientation as the only flag, the planes numbered in their
/// order, and the duplicates in place of the file descriptors.
pub open spec fn spec_received(
    buffer: DescriptorView,
    duplicates: Seq<Option<DuplicatedPlane>>,
    id: u64,
    planes: nat,
) -> DescriptorView {
    DescriptorView {
        id,
        width: buffer.width,
        height: buffer.height,
        format: buffer.format,
        modifier: buffer.modifier,
        flags: if buffer.flags & FLAG_Y_INVERT != 0 {
            1
        } else {
            0
        },
        planes: Seq::new(
            planes,
            |i: int|
                Plane {
                    fd: duplicates[i].unwrap().fd,
                    plane_idx: i as u32,
                    offset: buffer.planes[i].offset,
                    stride: buffer.planes[i].stride,
                },
        ),
    }
}

/// The duplicates are valid handles, and no two are the same.
pub open spec fn spec_distinct_duplicates(duplicates: Seq<Option<DuplicatedPlane>>) -> bool {
    &&& forall|i: int| 0 <= i < duplicates.len() ==> (#[trigger] duplicates[i]).unwrap().fd >= 0
    &&& forall|i: int, j: int|
        0 <= i < j < duplicates.len() ==> duplicates[i].unwrap().fd != duplicates[j].unwrap().fd
}

proof fn lemma_received_prefix(
    buffer: DescriptorView,
    duplicates: Seq<Option<DuplicatedPlane>>,
    elapsed: int,
    id: u64,
    count: nat,
)
    requires
        buffer.wf(),
        spec_all_duplicated(buffer.planes, duplicates),
        spec_distinct_duplicates(duplicates),
        count <= buffer.planes.len(),
    ensures
        spec_after_events(
            None,
            id,
            spec_frame_events(buffer, duplicates, elapsed).subrange(0, count as int + 1),
        ) == Some(spec_received(buffer, duplicates, id, count)),
    decreases count,
{
    let events = spec_frame_events(buffer, duplicates, elapsed);
    let run = events.subrange(0, count as int + 1);
    if count == 0 {
        assert(run.drop_last() =~= Seq::<FrameEvent>::empty());
        assert(run.last() == events[0]);
        lemma_split_join(buffer.modifier, 0, 0);
        let flags: u32 = if buffer.flags & FLAG_Y_INVERT != 0 {
            1
        } else {
            0
        };
        assert(spec_known_flags(flags) == flags) by {
            assert(1u32 & 7 == 1 && 0u32 & 7 == 0) by (bit_vector);
        }
        assert(spec_received(buffer, duplicates, id, 0).planes =~= Seq::<Plane>::empty());
        assert(buffer.format == (Fourcc { code: buffer.format.code }));
    } else {
        let before = (count - 1) as nat;
        lemma_received_prefix(buffer, duplicates, elapsed, id, before);
        assert(run.drop_last() =~= events.subrange(0, before as int + 1));
        assert(run.last() == events[count as int]);
        let open = spec_received(buffer, duplicates, id, before);
        let event = events[count as int];
        let carried = spec_carried(event);
        assert(duplicates[before as int].is_some());
        assert(carried.fd == duplicates[before as int].unwrap().fd);
        assert(carried.plane_idx == before as u32);
        assert(!spec_holds_fd(open.planes, carried.fd)) by {
            if spec_holds_fd(open.planes, carried.fd) {
                let k = choose|k: int| 0 <= k < open.planes.len() && (#[trigger] open.planes[k]).fd
                    == carried.fd;
                assert(duplicates[k].unwrap().fd != duplicates[before as int].unwrap().fd);
            }
        }
        lemma_with_plane_appends(open.planes, carried);
        assert(open.planes.push(carried) =~= spec_received(buffer, duplicates, id, count).planes);
    }
}

/// What the server sends for a buffer, the client puts together again: from
/// the events of a frame, taken in one by one, the client gets the frame that
/// `spec_received` describes, and that frame is a valid buffer descriptor.
pub proof fn lemma_events_round_trip(
    buffer: DescriptorView,
    duplicates: Seq<Option<DuplicatedPlane>>,
    elapsed: int,
    id: u64,
)
    requires
        buffer.wf(),
        spec_all_duplicated(buffer.planes, duplicates),
        spec_distinct_duplicates(duplicates),
    ensures
        ({
            let events = spec_frame_events(buffer, duplicates, elapsed);
            let planes = buffer.planes.len();
            let received = spec_received(buffer, duplicates, id, planes);
            &&& events[planes as int + 1] is Ready
            &&& spec_after_events(None, id, events.subrange(0, planes as int + 1)) == Some(received)
            &&& received.wf()
        }),
{
    let planes = buffer.planes.len();
    lemma_received_prefix(buffer, duplicates, elapsed, id, planes);
    let received = spec_received(buffer, duplicates, id, planes);
    assert(received.flags == spec_known_flags(received.flags)) by {
        assert(1u32 & 7 == 1 && 0u32 & 7 == 0) by (bit_vector);
    }
    assert forall|i: int| 0 <= i < received.planes.len() implies (#[trigger] received.planes[i]).stride
        >= crate::dmabuf::spec_min_stride(received.format, received.width) by {
        assert(buffer.planes[i].stride >= crate::dmabuf::spec_min_stride(buffer.format, buffer.width));
    }
}

} // verus!
