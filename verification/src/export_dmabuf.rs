//! The server side of the capture protocol: a capture request is answered
//! either by the events that hand a frame to the client, or by one
//! cancellation.
//!
//! The frame comes from a handler that the compositor supplies. This module
//! decides which events answer a request and what they carry; sending them is
//! left to the caller.

use vstd::prelude::*;
use crate::dmabuf::{BufferDescriptor, DescriptorView, Plane, FLAG_Y_INVERT};
use crate::time::{spec_elapsed, Timestamp};
use crate::utils::{spec_split_u64, split_u64};

verus! {

/// Why a capture failed.
#[derive(Debug)]
pub enum CaptureError {
    /// The failure will pass: the client should ask again at once.
    Temporary(String),
    /// The failure will stay: the client must give this output up.
    Permanent(String),
    /// The size of the output changed: the client should start over.
    Resizing,
}

/// A captured frame.
#[derive(Debug)]
pub struct Capture {
    pub dmabuf: BufferDescriptor,
    pub presentation_time: Timestamp,
}

/// The reason that a cancellation carries.
#[derive(Clone, Copy, Debug, PartialEq, Eq, Structural)]
pub enum CancelReason {
    Temporary,
    Permanent,
    Resizing,
}

/// How long the client may keep the buffer of a frame.
#[derive(Clone, Copy, Debug, PartialEq, Eq, Structural)]
pub enum Flags {
    /// The buffer is lent for a short time only.
    Transient,
}

/// The output that a capture request names.
#[derive(Clone, Copy, Debug, PartialEq, Eq, Structural)]
pub struct OutputId {
    pub id: u32,
}

/// A duplicate of the file descriptor of a plane, with the size in bytes of
/// the memory behind it. The duplicate is a handle of its own: it is sent to
/// the client, and the descriptor keeps the one it owns.
#[derive(Clone, Copy, Debug, PartialEq, Eq, Structural)]
pub struct DuplicatedPlane {
    pub fd: i32,
    pub size: u64,
}

/// An event of a capture.
#[derive(Clone, Copy, Debug, PartialEq, Eq, Structural)]
pub enum FrameEvent {
    /// Opens a frame: its size, orientation, format and layout, and the
    /// number of plane events that follow.
    Frame {
        width: u32,
        height: u32,
        offset_x: u32,
        offset_y: u32,
        buffer_flags: u32,
        flags: Flags,
        format: u32,
        mod_high: u32,
        mod_low: u32,
        num_objects: u32,
    },
    /// One plane of the frame.
    Object { index: u32, fd: i32, size: u32, offset: u32, stride: u32, plane_index: u32 },
    /// Closes a frame: the time at which it was presented.
    Ready { tv_sec_hi: u32, tv_sec_lo: u32, tv_nsec: u32 },
    /// Ends a capture without a frame.
    Cancel { reason: CancelReason },
}

/// A request to the capture manager.
#[derive(Clone, Copy, Debug, PartialEq, Eq, Structural)]
pub enum ManagerRequest {
    /// Asks for one frame of an output, with the cursor drawn into it unless
    /// `overlay_cursor` is zero.
    CaptureOutput { overlay_cursor: i32, output: OutputId },
    /// Gives the manager up.
    Destroy,
}

/// A request to the object that stands for one capture.
#[derive(Clone, Copy, Debug, PartialEq, Eq, Structural)]
pub enum FrameRequest {
    /// Gives the object up.
    Destroy,
}

/// What the compositor supplies to the capture protocol.
pub trait ExportDmabufHandler {
    /// Renders the output into a buffer and hands the buffer over.
    fn capture_frame(&mut self, output: OutputId, overlay_cursor: bool) -> Result<
        Capture,
        CaptureError,
    >;

    /// The time from which the client counts.
    fn start_time(&mut self) -> Timestamp;

    /// Duplicates the file descriptor of a plane and measures the memory
    /// behind the duplicate. The file descriptor handed in is only borrowed.
    /// `None` tells that duplicating or measuring failed.
    fn duplicate_plane(&mut self, fd: i32) -> Option<DuplicatedPlane>;

    /// Takes back a duplicate that will not be sent, to close it.
    fn discard_plane(&mut self, plane: DuplicatedPlane);
}

/// The capture manager.
#[derive(Clone, Copy, Debug, PartialEq, Eq, Structural)]
pub struct ExportDmabufState {
    global: u32,
}

/// The reason with which a failed capture is cancelled.
pub open spec fn spec_cancel_reason(error: CaptureError) -> CancelReason {
    match error {
        CaptureError::Temporary(_) => CancelReason::Temporary,
        CaptureError::Permanent(_) => CancelReason::Permanent,
        CaptureError::Resizing => CancelReason::Resizing,
    }
}

/// The event that opens the frame of a buffer.
pub open spec fn spec_frame_event(buffer: DescriptorView) -> FrameEvent {
    FrameEvent::Frame {
        width: buffer.width,
        height: buffer.height,
        offset_x: 0,
        offset_y: 0,
        buffer_flags: if buffer.flags & FLAG_Y_INVERT != 0 {
            1
        } else {
            0
        },
        flags: Flags::Transient,
        format: buffer.format.code,
        mod_high: spec_split_u64(buffer.modifier).0,
        mod_low: spec_split_u64(buffer.modifier).1,
        num_objects: buffer.planes.len() as u32,
    }
}

/// The event of the plane at a position. It carries the duplicate, not the
/// file descriptor that the buffer owns, and the lower 32 bits of the size.
pub open spec fn spec_object_event(plane: Plane, position: int, duplicate: DuplicatedPlane) -> FrameEvent {
    FrameEvent::Object {
        index: position as u32,
        fd: duplicate.fd,
        size: (duplicate.size as int % 0x1_0000_0000) as u32,
        offset: plane.offset,
        stride: plane.stride,
        plane_index: position as u32,
    }
}

/// The event that closes a frame presented the given nanoseconds after the
/// time from which the client counts.
pub open spec fn spec_ready_event(elapsed: int) -> FrameEvent {
    let seconds = (elapsed / 1_000_000_000) as u64;
    FrameEvent::Ready {
        tv_sec_hi: spec_split_u64(seconds).0,
        tv_sec_lo: spec_split_u64(seconds).1,
        tv_nsec: (elapsed % 1_000_000_000) as u32,
    }
}

/// Whether there is one duplicate for every plane.
pub open spec fn spec_all_duplicated(planes: Seq<Plane>, duplicates: Seq<Option<DuplicatedPlane>>) -> bool {
    &&& duplicates.len() == planes.len()
    &&& forall|i: int| 0 <= i < duplicates.len() ==> (#[trigger] duplicates[i]).is_some()
}

/// The events that hand a frame over: the opening event, one event per plane
/// in the order of the planes, and the closing event.
pub open spec fn spec_frame_events(
    buffer: DescriptorView,
    duplicates: Seq<Option<DuplicatedPlane>>,
    elapsed: int,
) -> Seq<FrameEvent> {
    Seq::new(
        buffer.planes.len() + 2,
        |i: int|
            if i == 0 {
                spec_frame_event(buffer)
            } else if i <= buffer.planes.len() {
                spec_object_event(buffer.planes[i - 1], i - 1, duplicates[i - 1].unwrap())
            } else {
                spec_ready_event(elapsed)
            },
    )
}

/// The events that answer a capture request, given what the handler returned,
/// the duplicates of the planes and the time from which the client counts.
///
/// A capture that failed is cancelled with the reason of its error. A capture
/// that succeeded is handed over, unless a plane could not be duplicated and
/// measured: it is then cancelled as a failure that will pass.
pub open spec fn spec_respond(
    outcome: Result<Capture, CaptureError>,
    duplicates: Seq<Option<DuplicatedPlane>>,
    start_time: Timestamp,
) -> Seq<FrameEvent> {
    match outcome {
        Err(error) => seq![FrameEvent::Cancel { reason: spec_cancel_reason(error) }],
        Ok(capture) => if spec_all_duplicated(capture.dmabuf@.planes, duplicates) {
            spec_frame_events(
                capture.dmabuf@,
                duplicates,
                spec_elapsed(start_time@, capture.presentation_time@),
            )
        } else {
            seq![FrameEvent::Cancel { reason: CancelReason::Temporary }]
        },
    }
}

/// Whether the events hand over a frame of `planes` planes: the first opens
/// the frame and announces that many planes, the last closes it, and the
/// events between them are the planes, numbered in their order.
pub open spec fn spec_is_frame(events: Seq<FrameEvent>, planes: nat) -> bool {
    &&& events.len() == planes + 2
    &&& events[0] matches FrameEvent::Frame { num_objects, .. } && num_objects == planes
    &&& forall|i: int|
        1 <= i <= planes ==> (#[trigger] events[i] matches FrameEvent::Object { index, .. } && index
            == i - 1)
    &&& events[planes as int + 1] is Ready
}

/// Whether the events are one cancellation and nothing else.
pub open spec fn spec_is_cancel(events: Seq<FrameEvent>, reason: CancelReason) -> bool {
    events.len() == 1 && events[0] == (FrameEvent::Cancel { reason })
}

/// Whether the events are an answer that the protocol allows: a frame of at
/// least one plane, or one cancellation.
pub open spec fn spec_is_response(events: Seq<FrameEvent>) -> bool {
    ||| exists|planes: nat| planes >= 1 && spec_is_frame(events, planes)
    ||| exists|reason: CancelReason| spec_is_cancel(events, reason)
}

/// A capture that succeeded, with all its planes duplicated, is answered by
/// exactly one opening event, then one event per plane, then exactly one
/// closing event, and by no cancellation.
pub proof fn lemma_success_is_frame(
    capture: Capture,
    duplicates: Seq<Option<DuplicatedPlane>>,
    start_time: Timestamp,
)
    requires
        capture.dmabuf.wf(),
        spec_all_duplicated(capture.dmabuf@.planes, duplicates),
    ensures
        ({
            let events = spec_respond(Ok(capture), duplicates, start_time);
            let planes = capture.dmabuf@.planes.len();
            &&& spec_is_frame(events, planes)
            &&& forall|i: int| 0 <= i < events.len() ==> !((#[trigger] events[i]) is Cancel)
            &&& forall|i: int| 0 <= i < events.len() ==> ((#[trigger] events[i]) is Frame <==> i == 0)
            &&& forall|i: int|
                0 <= i < events.len() ==> ((#[trigger] events[i]) is Object <==> 1 <= i <= planes)
            &&& forall|i: int|
                0 <= i < events.len() ==> ((#[trigger] events[i]) is Ready <==> i == planes + 1)
        }),
{
}

/// A capture that failed is answered by exactly one cancellation, which
/// carries the reason of the failure, and by nothing else: a failure that
/// will pass gives `Temporary`, one that will stay gives `Permanent`, and a
/// change of size gives `Resizing`.
pub proof fn lemma_failure_is_cancel(
    error: CaptureError,
    duplicates: Seq<Option<DuplicatedPlane>>,
    start_time: Timestamp,
)
    ensures
        spec_is_cancel(spec_respond(Err(error), duplicates, start_time), spec_cancel_reason(error)),
        error is Temporary ==> spec_respond(Err(error), duplicates, start_time) == seq![
            FrameEvent::Cancel { reason: CancelReason::Temporary },
        ],
{
}

/// Every answer is one that the protocol allows.
pub proof fn lemma_respond_is_response(
    outcome: Result<Capture, CaptureError>,
    duplicates: Seq<Option<DuplicatedPlane>>,
    start_time: Timestamp,
)
    requires
        outcome matches Ok(capture) ==> capture.dmabuf.wf(),
    ensures
        spec_is_response(spec_respond(outcome, duplicates, start_time)),
{
    let events = spec_respond(outcome, duplicates, start_time);
    match outcome {
        Ok(capture) => {
            if spec_all_duplicated(capture.dmabuf@.planes, duplicates) {
                lemma_success_is_frame(capture, duplicates, start_time);
                assert(spec_is_frame(events, capture.dmabuf@.planes.len()));
            } else {
                assert(spec_is_cancel(events, CancelReason::Temporary));
            }
        },
        Err(error) => {
            assert(spec_is_cancel(events, spec_cancel_reason(error)));
        },
    }
}

/// The reason with which a failed capture is cancelled.
pub fn cancel_reason(error: &CaptureError) -> (reason: CancelReason)
    ensures
        reason == spec_cancel_reason(*error),
{
    match error {
        CaptureError::Temporary(_) => CancelReason::Temporary,
        CaptureError::Permanent(_) => CancelReason::Permanent,
        CaptureError::Resizing => CancelReason::Resizing,
    }
}

/// The lower 32 bits of a size.
fn low_bits(size: u64) -> (low: u32)
    ensures
        low == (size as int % 0x1_0000_0000) as u32,
{
    let low: u32 = (size & 0xFFFF_FFFF) as u32;
    assert(low == size % 0x1_0000_0000) by (bit_vector)
        requires
            low == (size & 0xFFFF_FFFF) as u32,
    ;
    low
}

/// Whether there is one duplicate for every plane of the buffer.
fn all_duplicated(buffer: &BufferDescriptor, duplicates: &Vec<Option<DuplicatedPlane>>) -> (all: bool)
    ensures
        all == spec_all_duplicated(buffer@.planes, duplicates@),
{
    if duplicates.len() != buffer.num_planes() {
        return false;
    }
    let mut i: usize = 0;
    while i < duplicates.len()
        invariant
            i <= duplicates.len(),
            forall|k: int| 0 <= k < i ==> (#[trigger] duplicates@[k]).is_some(),
        decreases duplicates.len() - i,
    {
        if duplicates[i].is_none() {
            return false;
        }
        i += 1;
    }
    true
}

/// The events that answer a capture request, given what the handler returned,
/// the duplicates of the planes and the time from which the client counts.
pub fn respond(
    outcome: Result<Capture, CaptureError>,
    duplicates: &Vec<Option<DuplicatedPlane>>,
    start_time: Timestamp,
) -> (events: Vec<FrameEvent>)
    ensures
        events@ == spec_respond(outcome, duplicates@, start_time),
        spec_is_response(events@),
{
    let capture = match outcome {
        Err(error) => {
            let reason = cancel_reason(&error);
            let events = vec![FrameEvent::Cancel { reason }];
            proof {
                lemma_respond_is_response(outcome, duplicates@, start_time);
                assert(events@ =~= spec_respond(outcome, duplicates@, start_time));
            }
            return events;
        },
        Ok(capture) => capture,
    };
    let buffer = &capture.dmabuf;
    let planes = buffer.num_planes();
    proof {
        lemma_respond_is_response(outcome, duplicates@, start_time);
    }
    if !all_duplicated(buffer, duplicates) {
        let events = vec![FrameEvent::Cancel { reason: CancelReason::Temporary }];
        assert(events@ =~= spec_respond(outcome, duplicates@, start_time));
        return events;
    }
    let ghost elapsed_nanos = spec_elapsed(start_time@, capture.presentation_time@);
    let ghost expected = spec_frame_events(buffer@, duplicates@, elapsed_nanos);
    let (mod_high, mod_low) = split_u64(buffer.modifier());
    let mut events: Vec<FrameEvent> = Vec::new();
    events.push(
        FrameEvent::Frame {
            width: buffer.width(),
            height: buffer.height(),
            offset_x: 0,
            offset_y: 0,
            buffer_flags: if buffer.y_inverted() {
                1
            } else {
                0
            },
            flags: Flags::Transient,
            format: buffer.format().code(),
            mod_high,
            mod_low,
            num_objects: planes as u32,
        },
    );
    assert(events@ =~= expected.subrange(0, 1));
    let mut i: usize = 0;
    while i < planes
        invariant
            i <= planes,
            planes == buffer@.planes.len(),
            planes <= 4,
            spec_all_duplicated(buffer@.planes, duplicates@),
            expected == spec_frame_events(buffer@, duplicates@, elapsed_nanos),
            events@ == expected.subrange(0, i + 1),
        decreases planes - i,
    {
        let plane = buffer.plane(i);
        let duplicate = duplicates[i];
        match (plane, duplicate) {
            (Some(plane), Some(duplicate)) => {
                events.push(
                    FrameEvent::Object {
                        index: i as u32,
                        fd: duplicate.fd,
                        size: low_bits(duplicate.size),
                        offset: plane.offset,
                        stride: plane.stride,
                        plane_index: i as u32,
                    },
                );
            },
            _ => {
                assert(false);
            },
        }
        assert(events@ =~= expected.subrange(0, i + 2)) by {
            assert(expected.subrange(0, i + 2) =~= expected.subrange(0, i + 1).push(expected[i + 1]));
        }
        i += 1;
    }
    let elapsed = capture.presentation_time.duration_since(start_time);
    let (tv_sec_hi, tv_sec_lo) = split_u64(elapsed.as_secs());
    events.push(FrameEvent::Ready { tv_sec_hi, tv_sec_lo, tv_nsec: elapsed.subsec_nanos() });
    assert(events@ =~= expected) by {
        assert(expected =~= expected.subrange(0, planes + 1).push(expected[planes + 1]));
    }
    events
}

impl ExportDmabufState {
    /// The manager that was announced to the clients under the given name.
    pub fn new(global: u32) -> (state: ExportDmabufState)
        ensures
            state.global() == global,
    {
        ExportDmabufState { global }
    }

    /// The name under which the manager was announced.
    #[verifier::when_used_as_spec(spec_global)]
    pub fn global(&self) -> (global: u32)
        ensures
            global == self.spec_global(),
    {
        self.global
    }

    pub closed spec fn spec_global(&self) -> u32 {
        self.global
    }

    /// Answers a request to the manager.
    ///
    /// Giving the manager up is answered by nothing. A capture request is
    /// answered by one answer that the protocol allows, whatever the handler
    /// does: the events of one frame, or one cancellation. The handler is
    /// asked for the frame, then for a duplicate of each plane, and, if all
    /// that succeeded, for the time from which the client counts. Where a
    /// plane cannot be duplicated, the duplicates made so far go back to the
    /// handler and none is left to send. Whatever the handler returned, the
    /// answer is the one that `respond` gives for the outcome of the capture
    /// and the duplicates that are left.
    pub fn request<D: ExportDmabufHandler>(state: &mut D, request: ManagerRequest) -> (events: Vec<
        FrameEvent,
    >)
        ensures
            request is Destroy ==> events@.len() == 0,
            request is CaptureOutput ==> spec_is_response(events@),
    {
        let (overlay_cursor, output) = match request {
            ManagerRequest::CaptureOutput { overlay_cursor, output } => (overlay_cursor, output),
            ManagerRequest::Destroy => {
                return Vec::new();
            },
        };
        let capture = match state.capture_frame(output, overlay_cursor != 0) {
            Ok(capture) => capture,
            Err(error) => {
                return respond(Err(error), &Vec::new(), Timestamp::origin());
            },
        };
        let planes = capture.dmabuf.num_planes();
        let mut duplicates: Vec<Option<DuplicatedPlane>> = Vec::new();
        let mut i: usize = 0;
        while i < planes
            invariant
                i <= planes,
                request is CaptureOutput,
                planes == capture.dmabuf@.planes.len(),
                duplicates@.len() == i,
            decreases planes - i,
        {
            let duplicate = match capture.dmabuf.plane(i) {
                Some(plane) => state.duplicate_plane(plane.fd),
                None => None,
            };
            if duplicate.is_none() {
                Self::discard(state, duplicates);
                return respond(Ok(capture), &Vec::new(), Timestamp::origin());
            }
            duplicates.push(duplicate);
            i += 1;
        }
        let start_time = state.start_time();
        respond(Ok(capture), &duplicates, start_time)
    }

    /// Answers a request to the object of one capture. Giving the object up
    /// ends nothing that is under way and is answered by nothing.
    pub fn frame_request(request: FrameRequest) -> (events: Vec<FrameEvent>)
        ensures
            events@.len() == 0,
    {
        match request {
            FrameRequest::Destroy => Vec::new(),
        }
    }

    /// Hands duplicates that will not be sent back to the handler.
    fn discard<D: ExportDmabufHandler>(state: &mut D, duplicates: Vec<Option<DuplicatedPlane>>) {
        let mut i: usize = 0;
        while i < duplicates.len()
            invariant
                i <= duplicates.len(),
            decreases duplicates.len() - i,
        {
            match duplicates[i] {
                Some(plane) => {
                    state.discard_plane(plane);
                },
                None => {},
            }
            i += 1;
        }
    }
}

} // verus!
