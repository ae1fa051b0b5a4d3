//! The producer's side of the render command channel: the source element
//! that asks the compositor for frames, one at a time.
//!
//! The element decides here what to send and what each outcome means. The
//! channel, the thread of the compositor and the waiting belong to the
//! caller.

use vstd::prelude::*;
use crate::allocators::AllocatorKind;
use crate::buffer_pool::{BufferPoolConfig, Caps, ConfigError, PoolOption, PoolParams};
use crate::dmabuf::BufferDescriptor;
use crate::utils::{
    gst_video_format_from_drm_fourcc, spec_video_format_from_fourcc, Fourcc, VideoFormat,
};
use crate::video::{AllocationParams, VideoAlignment, VideoInfo};

verus! {

/// The render node that is used where none is set.
pub const DEFAULT_RENDER_NODE: &'static str = "/dev/dri/renderD128";

/// The seat that is used where none is set.
pub const DEFAULT_SEAT: &'static str = "seat-0";

/// The alignment, as a mask, that the element asks of every allocation.
pub const ALLOCATION_ALIGN: usize = 127;

/// The alignment, as a mask, that the element asks of the rows of the first plane.
pub const STRIDE_ALIGN: u32 = 31;

/// What the element is set to.
#[derive(Debug)]
pub struct Settings {
    pub render_node: Option<String>,
    pub input_seat: Option<String>,
}

/// A message to the compositor. `A` is the sender of the acknowledgement
/// that answers a request for a frame.
pub enum Command<A> {
    /// Describes the stream: sets the mode of the output.
    VideoInfo(VideoInfo),
    /// Asks for the scene to be rendered into the buffer.
    Buffer(BufferDescriptor, A),
    /// Asks the compositor to end.
    Quit,
}

/// Why the element has no frame.
#[derive(Clone, Copy, Debug, PartialEq, Eq, Structural)]
pub enum FlowError {
    /// The source has ended: there will be no more frames.
    Eos,
    /// The frame failed.
    Error,
}

/// The frame that the element produced.
#[derive(Clone, Copy, Debug, PartialEq, Eq, Structural)]
pub enum CreateSuccess {
    /// The buffer that was handed in holds the frame.
    FilledBuffer,
    /// A buffer that the element took from its pool holds the frame.
    NewBuffer,
}

/// What is to be done to stop the element.
#[derive(Clone, Copy, Debug, PartialEq, Eq, Structural)]
pub enum StopAction {
    /// Nothing: the compositor is not running.
    Nothing,
    /// Send `Quit`; if that succeeds, close the channel and join the thread.
    Quit,
}

/// What the element proposes for the allocation of its buffers.
#[derive(Clone, Copy, Debug)]
pub struct AllocationDecision {
    /// The configuration for the buffer pool.
    pub config: BufferPoolConfig,
    /// Whether the pool takes the place of the first pool of the query, or is
    /// added to a query that has none.
    pub replaces_first_pool: bool,
    /// The description of the stream to send to the compositor.
    pub video_info: VideoInfo,
}

/// What the element is, as a mathematical value.
pub struct SrcView {
    /// Whether the compositor was started and not stopped.
    pub running: bool,
    /// Whether a command could not be sent since the compositor was
    /// started: the compositor has ended by itself, and so has the source.
    pub ended: bool,
    /// The frame that was asked for and is not yet acknowledged: whether its
    /// buffer came from the pool of the element.
    pub outstanding: Option<bool>,
}

/// The source element.
#[derive(Debug)]
pub struct WaylandDisplaySrc {
    settings: Settings,
    running: bool,
    ended: bool,
    outstanding: Option<bool>,
}

/// The configuration that the element proposes for a stream, given the
/// numbers of buffers of the first pool of the query, if it has one.
pub open spec fn spec_decide_allocation(info: VideoInfo, proposed: Option<(u32, u32)>) -> Result<
    AllocationDecision,
    ConfigError,
> {
    if info.size > u32::MAX {
        Err(ConfigError::InvalidCaps)
    } else {
        Ok(
            AllocationDecision {
                config: BufferPoolConfig {
                    params: Some(
                        PoolParams {
                            caps: Some(Caps::Video(info)),
                            size: info.size as u32,
                            min_buffers: if proposed.is_some() {
                                proposed.unwrap().0
                            } else {
                                0
                            },
                            max_buffers: if proposed.is_some() {
                                proposed.unwrap().1
                            } else {
                                0
                            },
                        },
                    ),
                    allocator: Some(
                        (
                            Some(AllocatorKind::Gbm),
                            AllocationParams { flags: 0, align: ALLOCATION_ALIGN, prefix: 0, padding: 0 },
                        ),
                    ),
                    video_meta: true,
                    video_alignment_wanted: true,
                    video_alignment: Some(
                        VideoAlignment {
                            padding_top: 0,
                            padding_bottom: 0,
                            padding_left: 0,
                            padding_right: 0,
                            stride_align: [STRIDE_ALIGN, 0, 0, 0],
                        },
                    ),
                },
                replaces_first_pool: proposed.is_some(),
                video_info: info,
            },
        )
    }
}

/// The video formats of a list of four-character codes: each format once, in
/// the order in which the codes first name it; codes without a video format
/// are left out.
pub open spec fn spec_video_formats(codes: Seq<Fourcc>) -> Seq<VideoFormat>
    decreases codes.len(),
{
    if codes.len() == 0 {
        Seq::empty()
    } else {
        let before = spec_video_formats(codes.drop_last());
        match spec_video_format_from_fourcc(codes.last()) {
            Some(format) => if before.contains(format) {
                before
            } else {
                before.push(format)
            },
            None => before,
        }
    }
}

/// The list of video formats names no format twice; it names a format if and
/// only if one of the codes has it.
pub proof fn lemma_video_formats(codes: Seq<Fourcc>)
    ensures
        spec_video_formats(codes).no_duplicates(),
        forall|format: VideoFormat|
            spec_video_formats(codes).contains(format) <==> exists|i: int|
                0 <= i < codes.len() && spec_video_format_from_fourcc(#[trigger] codes[i]) == Some(
                    format,
                ),
    decreases codes.len(),
{
    if codes.len() > 0 {
        let rest = codes.drop_last();
        lemma_video_formats(rest);
        let before = spec_video_formats(rest);
        let after = spec_video_formats(codes);
        let last = spec_video_format_from_fourcc(codes.last());
        assert forall|format: VideoFormat| after.contains(format) <==> exists|i: int|
            0 <= i < codes.len() && spec_video_format_from_fourcc(#[trigger] codes[i]) == Some(
                format,
            ) by {
            if after.contains(format) {
                if before.contains(format) {
                    let i = choose|i: int|
                        0 <= i < rest.len() && spec_video_format_from_fourcc(#[trigger] rest[i]) == Some(
                            format,
                        );
                    assert(codes[i] == rest[i]);
                } else {
                    let k = choose|k: int| 0 <= k < after.len() && after[k] == format;
                    if last.is_some() && !before.contains(last.unwrap()) {
                        if k < before.len() {
                            assert(before[k] == format);
                        }
                    }
                    assert(spec_video_format_from_fourcc(codes[codes.len() - 1]) == Some(format));
                }
            }
            if exists|i: int|
                0 <= i < codes.len() && spec_video_format_from_fourcc(#[trigger] codes[i]) == Some(
                    format,
                ) {
                let i = choose|i: int|
                    0 <= i < codes.len() && spec_video_format_from_fourcc(#[trigger] codes[i]) == Some(
                        format,
                    );
                if i < rest.len() {
                    assert(rest[i] == codes[i]);
                    assert(before.contains(format));
                    let k = choose|k: int| 0 <= k < before.len() && before[k] == format;
                    if last.is_some() && !before.contains(last.unwrap()) {
                        assert(after[k] == format);
                    }
                } else {
                    if !before.contains(format) {
                        assert(after[after.len() - 1] == format);
                    }
                }
            }
        }
    }
}

/// The video formats that can be offered for the four-character codes that
/// the renderer can draw into.
pub fn video_formats(codes: &Vec<Fourcc>) -> (formats: Vec<VideoFormat>)
    ensures
        formats@ == spec_video_formats(codes@),
        formats@.no_duplicates(),
{
    let mut formats: Vec<VideoFormat> = Vec::new();
    let mut i: usize = 0;
    assert(codes@.subrange(0, 0) =~= Seq::<Fourcc>::empty());
    while i < codes.len()
        invariant
            i <= codes.len(),
            formats@ == spec_video_formats(codes@.subrange(0, i as int)),
        decreases codes.len() - i,
    {
        let ghost next = codes@.subrange(0, i as int + 1);
        assert(next.drop_last() =~= codes@.subrange(0, i as int));
        assert(next.last() == codes@[i as int]);
        match gst_video_format_from_drm_fourcc(codes[i]) {
            Some(format) => {
                if !has_format(&formats, format) {
                    formats.push(format);
                }
            },
            None => {},
        }
        i += 1;
    }
    proof {
        assert(codes@.subrange(0, i as int) =~= codes@);
        lemma_video_formats(codes@);
    }
    formats
}

/// Whether a list names a format.
fn has_format(formats: &Vec<VideoFormat>, format: VideoFormat) -> (found: bool)
    ensures
        found == formats@.contains(format),
{
    let mut i: usize = 0;
    while i < formats.len()
        invariant
            i <= formats.len(),
            forall|k: int| 0 <= k < i ==> formats@[k] != format,
        decreases formats.len() - i,
    {
        if formats[i] == format {
            return true;
        }
        i += 1;
    }
    false
}

impl WaylandDisplaySrc {
    pub closed spec fn view(&self) -> SrcView {
        SrcView { running: self.running, ended: self.ended, outstanding: self.outstanding }
    }

    /// What the element is set to.
    pub closed spec fn settings(&self) -> Settings {
        self.settings
    }

    /// An element that is not started.
    pub fn new(settings: Settings) -> (src: WaylandDisplaySrc)
        ensures
            src@ == (SrcView { running: false, ended: false, outstanding: None }),
            src.settings() == settings,
    {
        WaylandDisplaySrc { settings, running: false, ended: false, outstanding: None }
    }

    /// The render node of the compositor: the one that is set, or the default.
    pub fn render_node(&self) -> (node: String)
        ensures
            node@ == (match self.settings().render_node {
                Some(set) => set@,
                None => DEFAULT_RENDER_NODE@,
            }),
    {
        match &self.settings.render_node {
            Some(set) => set.clone(),
            None => DEFAULT_RENDER_NODE.to_owned(),
        }
    }

    /// The seat of the compositor: the one that is set, or the default.
    pub fn input_seat(&self) -> (seat: String)
        ensures
            seat@ == (match self.settings().input_seat {
                Some(set) => set@,
                None => DEFAULT_SEAT@,
            }),
    {
        match &self.settings.input_seat {
            Some(set) => set.clone(),
            None => DEFAULT_SEAT.to_owned(),
        }
    }

    /// Whether the compositor was started and not stopped.
    pub fn is_running(&self) -> (running: bool)
        ensures
            running == self@.running,
    {
        self.running
    }

    /// Whether the source has ended: it does not run, or a command could not
    /// be sent to the compositor.
    pub fn has_ended(&self) -> (ended: bool)
        ensures
            ended == (!self@.running || self@.ended),
    {
        !self.running || self.ended
    }

    /// Whether a frame was asked for and is not yet acknowledged.
    pub fn has_outstanding_frame(&self) -> (outstanding: bool)
        ensures
            outstanding == self@.outstanding.is_some(),
    {
        self.outstanding.is_some()
    }

    /// Starts the element. The result tells whether the compositor has to be
    /// started: an element that runs already is left as it is, also where
    /// its compositor has ended.
    pub fn start(&mut self) -> (spawn: bool)
        ensures
            spawn == !old(self)@.running,
            final(self)@ == (SrcView {
                running: true,
                ended: old(self)@.running && old(self)@.ended,
                ..old(self)@
            }),
            final(self).settings() == old(self).settings(),
    {
        let spawn = !self.running;
        if spawn {
            self.ended = false;
        }
        self.running = true;
        spawn
    }

    /// Stops the element. A frame that is outstanding is given up.
    pub fn stop(&mut self) -> (action: StopAction)
        ensures
            action == (if old(self)@.running {
                StopAction::Quit
            } else {
                StopAction::Nothing
            }),
            final(self)@ == (SrcView { running: false, ended: false, outstanding: None }),
            final(self).settings() == old(self).settings(),
    {
        let action = if self.running {
            StopAction::Quit
        } else {
            StopAction::Nothing
        };
        self.running = false;
        self.ended = false;
        self.outstanding = None;
        action
    }

    /// Whether the thread of the compositor is to be joined after `Quit` was
    /// sent: it is joined where the message went out, and left alone where it
    /// did not, for the compositor has then ended by itself.
    pub fn joins_after_quit(sent: bool) -> (join: bool)
        ensures
            join == sent,
    {
        sent
    }

    /// Decides how the buffers of a stream are allocated.
    pub fn decide_allocation(info: VideoInfo, proposed: Option<(u32, u32)>) -> (decision: Result<
        AllocationDecision,
        ConfigError,
    >)
        ensures
            decision == spec_decide_allocation(info, proposed),
    {
        if info.size > u32::MAX as usize {
            return Err(ConfigError::InvalidCaps);
        }
        let (min_buffers, max_buffers) = match proposed {
            Some((min_buffers, max_buffers)) => (min_buffers, max_buffers),
            None => (0, 0),
        };
        let mut config = BufferPoolConfig::new();
        config.set_allocator(
            Some(AllocatorKind::Gbm),
            AllocationParams::new(0, ALLOCATION_ALIGN, 0, 0),
        );
        config.add_option(PoolOption::VideoMeta);
        config.add_option(PoolOption::VideoAlignment);
        config.set_video_alignment(VideoAlignment::new(0, 0, 0, 0, [STRIDE_ALIGN, 0, 0, 0]));
        config.set_params(Some(Caps::Video(info)), info.size as u32, min_buffers, max_buffers);
        Ok(AllocationDecision { config, replaces_first_pool: proposed.is_some(), video_info: info })
    }

    /// Asks for a frame in the given buffer. `fresh` tells whether the buffer
    /// came from the pool of the element.
    ///
    /// An element that does not run has ended, and so has one whose
    /// compositor could not be reached before: there are no further frames.
    /// An element that waits for a frame cannot ask for another: at most one
    /// frame is outstanding. In these cases the buffer and the sender of the
    /// acknowledgement come back with the error, and nothing changes.
    /// Otherwise the result is the command to send, and the frame is
    /// outstanding.
    pub fn request_frame<A>(&mut self, target: BufferDescriptor, ack: A, fresh: bool) -> (result:
        Result<Command<A>, (FlowError, BufferDescriptor, A)>)
        ensures
            final(self).settings() == old(self).settings(),
            match result {
                Ok(command) => {
                    &&& old(self)@.running && !old(self)@.ended && old(self)@.outstanding.is_none()
                    &&& command matches Command::Buffer(buffer, fire) && buffer@ == target@ && fire
                        == ack
                    &&& final(self)@ == (SrcView { outstanding: Some(fresh), ..old(self)@ })
                },
                Err((error, buffer, fire)) => {
                    &&& !(old(self)@.running && !old(self)@.ended
                        && old(self)@.outstanding.is_none())
                    &&& error == (if !old(self)@.running || old(self)@.ended {
                        FlowError::Eos
                    } else {
                        FlowError::Error
                    })
                    &&& buffer@ == target@ && fire == ack
                    &&& final(self)@ == old(self)@
                },
            },
    {
        if !self.running || self.ended {
            return Err((FlowError::Eos, target, ack));
        }
        if self.outstanding.is_some() {
            return Err((FlowError::Error, target, ack));
        }
        self.outstanding = Some(fresh);
        Ok(Command::Buffer(target, ack))
    }

    /// Takes note of whether the description of the stream went out. A
    /// description that could not be sent means that the compositor has
    /// ended: the source has ended, and there are no further frames.
    pub fn video_info_sent(&mut self, sent: bool) -> (result: Result<(), FlowError>)
        ensures
            final(self).settings() == old(self).settings(),
            result == (if sent {
                Ok::<(), FlowError>(())
            } else {
                Err::<(), FlowError>(FlowError::Eos)
            }),
            sent ==> final(self)@ == old(self)@,
            !sent ==> final(self)@ == (SrcView { ended: true, ..old(self)@ }),
    {
        if sent {
            Ok(())
        } else {
            self.ended = true;
            Err(FlowError::Eos)
        }
    }

    /// Takes note of whether the request for a frame went out. A request
    /// that could not be sent means that the compositor has ended: the frame
    /// is given up, the source has ended, and there are no further frames.
    pub fn frame_sent(&mut self, sent: bool) -> (result: Result<(), FlowError>)
        ensures
            final(self).settings() == old(self).settings(),
            result == (if sent {
                Ok::<(), FlowError>(())
            } else {
                Err::<(), FlowError>(FlowError::Eos)
            }),
            sent ==> final(self)@ == old(self)@,
            !sent ==> final(self)@ == (SrcView { ended: true, outstanding: None, ..old(self)@ }),
    {
        if sent {
            Ok(())
        } else {
            self.ended = true;
            self.outstanding = None;
            Err(FlowError::Eos)
        }
    }

    /// Takes note of how the wait for the acknowledgement ended. The frame
    /// is no longer outstanding. An acknowledgement that arrived gives the
    /// frame; one that was dropped, and one that nothing was waiting for, is
    /// an error of this frame.
    pub fn frame_acknowledged(&mut self, acknowledged: bool) -> (result: Result<
        CreateSuccess,
        FlowError,
    >)
        ensures
            final(self).settings() == old(self).settings(),
            final(self)@ == (SrcView { outstanding: None, ..old(self)@ }),
            result == (match old(self)@.outstanding {
                Some(fresh) if acknowledged => Ok::<CreateSuccess, FlowError>(
                    if fresh {
                        CreateSuccess::NewBuffer
                    } else {
                        CreateSuccess::FilledBuffer
                    },
                ),
                _ => Err::<CreateSuccess, FlowError>(FlowError::Error),
            }),
    {
        let outstanding = self.outstanding;
        self.outstanding = None;
        match outstanding {
            Some(fresh) => {
                if acknowledged {
                    if fresh {
                        Ok(CreateSuccess::NewBuffer)
                    } else {
                        Ok(CreateSuccess::FilledBuffer)
                    }
                } else {
                    Err(FlowError::Error)
                }
            },
            None => Err(FlowError::Error),
        }
    }
}

} // verus!
