use wayland_display::capture::{Outcome, State};
use wayland_display::dmabuf::{BufferDescriptor, DmabufFlags, Plane};
use wayland_display::export_dmabuf::{
    cancel_reason, respond, CancelReason, Capture, CaptureError, DuplicatedPlane,
    ExportDmabufHandler, ExportDmabufState, Flags, FrameEvent, FrameRequest, ManagerRequest,
    OutputId,
};
use wayland_display::time::Timestamp;
use wayland_display::utils::{Fourcc, DRM_FORMAT_ARGB8888, DRM_FORMAT_NV12};

fn frame(modifier: u64, flags: u32) -> BufferDescriptor {
    let mut builder = BufferDescriptor::builder(
        1,
        1280,
        720,
        Fourcc::new(DRM_FORMAT_ARGB8888),
        modifier,
        DmabufFlags::from_bits_truncate(flags),
    );
    assert!(builder.add_plane(5, 0, 64, 5120));
    builder.build().unwrap()
}

fn two_planes() -> BufferDescriptor {
    let mut builder = BufferDescriptor::builder(
        2,
        16,
        16,
        Fourcc::new(DRM_FORMAT_NV12),
        0,
        DmabufFlags::empty(),
    );
    assert!(builder.add_plane(5, 0, 0, 16));
    assert!(builder.add_plane(6, 1, 256, 16));
    builder.build().unwrap()
}

struct Handler {
    outcome: Option<Result<Capture, CaptureError>>,
    start: Timestamp,
    fail_plane: Option<i32>,
    duplicated: Vec<i32>,
    discarded: Vec<i32>,
    start_time_calls: u32,
    requests: Vec<(u32, bool)>,
}

fn handler(outcome: Result<Capture, CaptureError>) -> Handler {
    Handler {
        outcome: Some(outcome),
        start: Timestamp::new(100, 0).unwrap(),
        fail_plane: None,
        duplicated: Vec::new(),
        discarded: Vec::new(),
        start_time_calls: 0,
        requests: Vec::new(),
    }
}

impl ExportDmabufHandler for Handler {
    fn capture_frame(&mut self, output: OutputId, overlay_cursor: bool) -> Result<Capture, CaptureError> {
        self.requests.push((output.id, overlay_cursor));
        self.outcome.take().expect("one capture per request")
    }

    fn start_time(&mut self) -> Timestamp {
        self.start_time_calls += 1;
        self.start
    }

    fn duplicate_plane(&mut self, fd: i32) -> Option<DuplicatedPlane> {
        if self.fail_plane == Some(fd) {
            return None;
        }
        self.duplicated.push(fd);
        Some(DuplicatedPlane { fd: fd + 100, size: 4096 * (fd as u64) })
    }

    fn discard_plane(&mut self, plane: DuplicatedPlane) {
        self.discarded.push(plane.fd);
    }
}

fn capture_output(cursor: i32) -> ManagerRequest {
    ManagerRequest::CaptureOutput { overlay_cursor: cursor, output: OutputId { id: 3 } }
}

#[test]
fn successful_capture_emits_frame_objects_ready() {
    let capture = Capture {
        dmabuf: frame(0x0100_0000_0000_0002, 1),
        presentation_time: Timestamp::new(105, 250).unwrap(),
    };
    let mut state = handler(Ok(capture));
    let events = ExportDmabufState::request(&mut state, capture_output(1));
    assert_eq!(
        events,
        vec![
            FrameEvent::Frame {
                width: 1280,
                height: 720,
                offset_x: 0,
                offset_y: 0,
                buffer_flags: 1,
                flags: Flags::Transient,
                format: DRM_FORMAT_ARGB8888,
                mod_high: 0x0100_0000,
                mod_low: 2,
                num_objects: 1,
            },
            FrameEvent::Object {
                index: 0,
                fd: 105,
                size: 20480,
                offset: 64,
                stride: 5120,
                plane_index: 0,
            },
            FrameEvent::Ready { tv_sec_hi: 0, tv_sec_lo: 5, tv_nsec: 250 },
        ]
    );
    assert_eq!(state.requests, vec![(3, true)]);
    assert_eq!(state.duplicated, vec![5]);
    assert!(state.discarded.is_empty());
    assert_eq!(state.start_time_calls, 1);
}

#[test]
fn every_plane_gets_one_object_event_in_order() {
    let capture = Capture { dmabuf: two_planes(), presentation_time: Timestamp::new(100, 0).unwrap() };
    let mut state = handler(Ok(capture));
    let events = ExportDmabufState::request(&mut state, capture_output(0));
    assert_eq!(state.requests, vec![(3, false)]);
    assert_eq!(events.len(), 4);
    assert!(matches!(events[0], FrameEvent::Frame { num_objects: 2, buffer_flags: 0, .. }));
    assert!(matches!(events[1], FrameEvent::Object { index: 0, fd: 105, plane_index: 0, offset: 0, .. }));
    assert!(matches!(events[2], FrameEvent::Object { index: 1, fd: 106, plane_index: 1, offset: 256, .. }));
    assert_eq!(events[3], FrameEvent::Ready { tv_sec_hi: 0, tv_sec_lo: 0, tv_nsec: 0 });
    assert_eq!(events.iter().filter(|event| matches!(event, FrameEvent::Cancel { .. })).count(), 0);
}

#[test]
fn temporary_failure_emits_one_temporary_cancel() {
    let mut state = handler(Err(CaptureError::Temporary("busy".to_string())));
    let events = ExportDmabufState::request(&mut state, capture_output(0));
    assert_eq!(events, vec![FrameEvent::Cancel { reason: CancelReason::Temporary }]);
    assert!(state.duplicated.is_empty());
    assert_eq!(state.start_time_calls, 0);
}

#[test]
fn permanent_failure_and_resizing_emit_their_reason() {
    let mut state = handler(Err(CaptureError::Permanent("gone".to_string())));
    assert_eq!(
        ExportDmabufState::request(&mut state, capture_output(0)),
        vec![FrameEvent::Cancel { reason: CancelReason::Permanent }]
    );
    let mut state = handler(Err(CaptureError::Resizing));
    assert_eq!(
        ExportDmabufState::request(&mut state, capture_output(0)),
        vec![FrameEvent::Cancel { reason: CancelReason::Resizing }]
    );
    assert_eq!(cancel_reason(&CaptureError::Resizing), CancelReason::Resizing);
}

#[test]
fn a_plane_that_cannot_be_measured_cancels_the_whole_frame() {
    let capture = Capture { dmabuf: two_planes(), presentation_time: Timestamp::new(100, 0).unwrap() };
    let mut state = handler(Ok(capture));
    state.fail_plane = Some(6);
    let events = ExportDmabufState::request(&mut state, capture_output(0));
    assert_eq!(events, vec![FrameEvent::Cancel { reason: CancelReason::Temporary }]);
    assert_eq!(state.duplicated, vec![5]);
    assert_eq!(state.discarded, vec![105]);
    assert_eq!(state.start_time_calls, 0);
}

#[test]
fn destroy_requests_emit_nothing() {
    let mut state = handler(Err(CaptureError::Resizing));
    assert!(ExportDmabufState::request(&mut state, ManagerRequest::Destroy).is_empty());
    assert!(state.requests.is_empty());
    assert!(ExportDmabufState::frame_request(FrameRequest::Destroy).is_empty());
    assert_eq!(ExportDmabufState::new(42).global(), 42);
}

#[test]
fn respond_splits_time_and_cuts_the_size_to_32_bits() {
    let capture = Capture {
        dmabuf: frame(u64::MAX, 0),
        presentation_time: Timestamp::new(0x1_0000_0007, 999_999_999).unwrap(),
    };
    let duplicates = vec![Some(DuplicatedPlane { fd: 9, size: 0x1_0000_0010 })];
    let events = respond(Ok(capture), &duplicates, Timestamp::new(2, 0).unwrap());
    assert!(matches!(events[0], FrameEvent::Frame { mod_high: u32::MAX, mod_low: u32::MAX, .. }));
    assert!(matches!(events[1], FrameEvent::Object { fd: 9, size: 0x10, .. }));
    assert_eq!(events[2], FrameEvent::Ready { tv_sec_hi: 1, tv_sec_lo: 5, tv_nsec: 999_999_999 });
}

#[test]
fn respond_cancels_when_duplicates_do_not_match_the_planes() {
    let start = Timestamp::new(0, 0).unwrap();
    let cancel = vec![FrameEvent::Cancel { reason: CancelReason::Temporary }];
    let capture = |descriptor| Capture { dmabuf: descriptor, presentation_time: start };
    assert_eq!(respond(Ok(capture(frame(0, 0))), &vec![], start), cancel);
    assert_eq!(respond(Ok(capture(frame(0, 0))), &vec![None], start), cancel);
    let two = vec![Some(DuplicatedPlane { fd: 1, size: 1 }), Some(DuplicatedPlane { fd: 2, size: 1 })];
    assert_eq!(respond(Ok(capture(frame(0, 0))), &two, start), cancel);
    assert_eq!(
        respond(Err(CaptureError::Permanent(String::new())), &two, start),
        vec![FrameEvent::Cancel { reason: CancelReason::Permanent }]
    );
}

#[test]
fn a_frame_before_the_start_time_is_presented_at_zero() {
    let capture = Capture { dmabuf: frame(0, 0), presentation_time: Timestamp::new(1, 0).unwrap() };
    let duplicates = vec![Some(DuplicatedPlane { fd: 9, size: 1 })];
    let events = respond(Ok(capture), &duplicates, Timestamp::new(2, 0).unwrap());
    assert_eq!(events[2], FrameEvent::Ready { tv_sec_hi: 0, tv_sec_lo: 0, tv_nsec: 0 });
}

#[test]
fn the_client_puts_the_events_together_again() {
    let capture = Capture {
        dmabuf: frame(0x0100_0000_0000_0002, 1),
        presentation_time: Timestamp::new(105, 250).unwrap(),
    };
    let mut server = handler(Ok(capture));
    let events = ExportDmabufState::request(&mut server, capture_output(1));
    let mut client = State::new();
    let mut finished = None;
    for event in events {
        match client.handle_event(77, event) {
            Outcome::Pending => {}
            Outcome::Frame(descriptor) => finished = Some(descriptor),
            other => panic!("unexpected {:?}", other),
        }
    }
    let descriptor = finished.expect("a frame");
    assert_eq!(descriptor.id(), 77);
    assert_eq!((descriptor.width(), descriptor.height()), (1280, 720));
    assert_eq!(descriptor.format(), Fourcc::new(DRM_FORMAT_ARGB8888));
    assert_eq!(descriptor.modifier(), 0x0100_0000_0000_0002);
    assert!(descriptor.y_inverted());
    assert_eq!(descriptor.plane(0), Some(Plane { fd: 105, plane_idx: 0, offset: 64, stride: 5120 }));
}

#[test]
fn the_client_reports_cancellations_and_violations() {
    let mut client = State::new();
    let object = FrameEvent::Object { index: 0, fd: 4, size: 1, offset: 0, stride: 64, plane_index: 0 };
    let ready = FrameEvent::Ready { tv_sec_hi: 0, tv_sec_lo: 0, tv_nsec: 0 };
    let open = FrameEvent::Frame {
        width: 16,
        height: 16,
        offset_x: 0,
        offset_y: 0,
        buffer_flags: 0,
        flags: Flags::Transient,
        format: DRM_FORMAT_ARGB8888,
        mod_high: 0,
        mod_low: 0,
        num_objects: 1,
    };
    assert!(matches!(client.handle_event(1, object), Outcome::Violation));
    assert!(matches!(client.handle_event(1, ready), Outcome::Violation));
    assert!(matches!(client.handle_event(1, open), Outcome::Pending));
    assert!(matches!(client.handle_event(1, ready), Outcome::Violation));
    assert!(matches!(client.handle_event(1, open), Outcome::Pending));
    assert!(matches!(client.handle_event(1, object), Outcome::Pending));
    assert!(matches!(client.handle_event(1, object), Outcome::Violation));
    assert!(matches!(
        client.handle_event(1, FrameEvent::Cancel { reason: CancelReason::Resizing }),
        Outcome::Cancelled(CancelReason::Resizing)
    ));
    assert!(matches!(client.handle_event(1, ready), Outcome::Violation));
}

#[test]
fn the_origin_is_the_point_from_which_time_is_counted() {
    assert_eq!(Timestamp::origin(), Timestamp::new(0, 0).unwrap());
    let later = Timestamp::new(3, 500).unwrap();
    let elapsed = later.duration_since(Timestamp::origin());
    assert_eq!((elapsed.as_secs(), elapsed.subsec_nanos()), (3, 500));
}
