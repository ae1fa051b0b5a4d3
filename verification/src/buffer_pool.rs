//! The buffer pool of the consumer: it takes the negotiated configuration,
//! fixes the alignment of the rows, and wraps the memory of each buffer into
//! a buffer descriptor.

use vstd::prelude::*;
use crate::allocators::{AllocError, AllocatorKind};
use crate::dmabuf::{
    lemma_with_plane_appends, BufferDescriptor, DescriptorView, DmabufFlags, Plane,
};
use crate::utils::{
    spec_video_format_to_fourcc, gst_video_format_to_drm_fourcc, DRM_FORMAT_MOD_LINEAR,
};
use crate::video::{AllocationParams, VideoAlignment, VideoInfo, VideoMeta, VIDEO_MAX_PLANES};

verus! {

/// What a pool may be asked to put on its buffers.
#[derive(Clone, Copy, Debug, PartialEq, Eq, Structural)]
pub enum PoolOption {
    /// The record of where the planes lie.
    VideoMeta,
    /// Rows that meet an alignment.
    VideoAlignment,
}

/// The negotiated stream, as far as it could be read.
#[derive(Clone, Copy, Debug)]
pub enum Caps {
    /// A video stream.
    Video(VideoInfo),
    /// Anything that is no video stream.
    Other,
}

/// The stream and the number and size of the buffers.
#[derive(Clone, Copy, Debug)]
pub struct PoolParams {
    pub caps: Option<Caps>,
    pub size: u32,
    pub min_buffers: u32,
    pub max_buffers: u32,
}

/// The configuration that is proposed to a pool, and that the pool hands
/// back with what it changed.
#[derive(Clone, Copy, Debug)]
pub struct BufferPoolConfig {
    pub params: Option<PoolParams>,
    pub allocator: Option<(Option<AllocatorKind>, AllocationParams)>,
    pub video_meta: bool,
    pub video_alignment_wanted: bool,
    pub video_alignment: Option<VideoAlignment>,
}

/// Why a configuration was refused. A pool that refuses a configuration stays
/// as it was.
#[derive(Clone, Copy, Debug, PartialEq, Eq, Structural)]
pub enum ConfigError {
    /// The configuration names neither stream nor buffers.
    MissingParams,
    /// The configuration names no stream.
    MissingCaps,
    /// The stream is no video stream, or its description cannot be used.
    InvalidCaps,
    /// The configuration names no backend.
    MissingAllocator,
    /// The backend has no buffers of the format of the stream.
    UnsupportedFormat,
    /// The rows could not be laid out to meet the alignment.
    Alignment,
}

/// What the pool decided from a configuration, before the rows are laid out.
#[derive(Clone, Copy, Debug)]
pub struct ConfigPlan {
    pub video_info: VideoInfo,
    pub size: u32,
    pub min_buffers: u32,
    pub max_buffers: u32,
    pub allocator: AllocatorKind,
    pub allocation_params: AllocationParams,
    pub add_video_meta: bool,
    /// The alignment that the rows have to be laid out for, if any.
    pub alignment: Option<VideoAlignment>,
}

/// A description of the stream whose rows were laid out for an alignment,
/// and the alignment with the paddings that the layout needed.
#[derive(Clone, Copy, Debug)]
pub struct AlignedLayout {
    pub video_info: VideoInfo,
    pub alignment: VideoAlignment,
}

/// What a configured pool remembers.
#[derive(Clone, Copy, Debug)]
pub struct State {
    pub video_info: Option<VideoInfo>,
    pub allocator: Option<AllocatorKind>,
    pub allocation_params: Option<AllocationParams>,
    pub add_video_meta: bool,
}

/// The buffer pool.
#[derive(Clone, Copy, Debug)]
pub struct SmithayBufferPool {
    pub state: State,
}

/// The alignment that holds for every plane: the alignment of the allocation
/// joined, bit by bit, with the row alignment of each of the first `planes`
/// planes.
pub open spec fn spec_max_align(align: usize, stride_align: [u32; 4], planes: nat) -> usize
    decreases planes,
{
    if planes == 0 {
        align
    } else {
        spec_max_align(align, stride_align, (planes - 1) as nat) | (stride_align[planes
            - 1] as usize)
    }
}

/// The row alignments after the pool fixed them: the common alignment for
/// each of the first `planes` planes, and none for the others.
pub open spec fn spec_fixed_strides(common: u32, planes: nat) -> [u32; 4] {
    [
        if planes > 0 {
            common
        } else {
            0
        },
        if planes > 1 {
            common
        } else {
            0
        },
        if planes > 2 {
            common
        } else {
            0
        },
        if planes > 3 {
            common
        } else {
            0
        },
    ]
}

/// Whether the backend has buffers for the stream.
pub open spec fn spec_can_allocate(allocator: AllocatorKind, info: VideoInfo) -> bool {
    allocator == AllocatorKind::Gbm ==> spec_video_format_to_fourcc(info.format).is_some()
}

/// What the pool decides from a configuration.
pub open spec fn spec_plan_config(config: BufferPoolConfig) -> Result<ConfigPlan, ConfigError> {
    if config.params.is_none() {
        Err(ConfigError::MissingParams)
    } else if config.params.unwrap().caps.is_none() {
        Err(ConfigError::MissingCaps)
    } else if !(config.params.unwrap().caps.unwrap() is Video) {
        Err(ConfigError::InvalidCaps)
    } else if config.params.unwrap().caps.unwrap()->Video_0.n_planes > VIDEO_MAX_PLANES {
        Err(ConfigError::InvalidCaps)
    } else if config.allocator.is_none() || config.allocator.unwrap().0.is_none() {
        Err(ConfigError::MissingAllocator)
    } else {
        let params = config.params.unwrap();
        let info = params.caps.unwrap()->Video_0;
        let allocator = config.allocator.unwrap().0.unwrap();
        let allocation = config.allocator.unwrap().1;
        if !spec_can_allocate(allocator, info) {
            Err(ConfigError::UnsupportedFormat)
        } else if config.video_alignment_wanted && config.video_meta
            && config.video_alignment.is_some() {
            let wanted = config.video_alignment.unwrap();
            let common = spec_max_align(allocation.align, wanted.stride_align, info.n_planes as nat);
            if common > u32::MAX {
                Err(ConfigError::Alignment)
            } else {
                Ok(
                    ConfigPlan {
                        video_info: info,
                        size: params.size,
                        min_buffers: params.min_buffers,
                        max_buffers: params.max_buffers,
                        allocator,
                        allocation_params: AllocationParams { align: common, ..allocation },
                        add_video_meta: config.video_meta,
                        alignment: Some(
                            VideoAlignment {
                                stride_align: spec_fixed_strides(common as u32, info.n_planes as nat),
                                ..wanted
                            },
                        ),
                    },
                )
            }
        } else {
            Ok(
                ConfigPlan {
                    video_info: info,
                    size: params.size,
                    min_buffers: params.min_buffers,
                    max_buffers: params.max_buffers,
                    allocator,
                    allocation_params: allocation,
                    add_video_meta: config.video_meta,
                    alignment: None,
                },
            )
        }
    }
}

/// Whether a layout is one for the stream and the alignment of a plan: it
/// describes the same stream, at the same frame rate, and every row meets the
/// alignment.
pub open spec fn spec_layout_fits(plan: ConfigPlan, layout: AlignedLayout) -> bool {
    &&& plan.alignment.is_some()
    &&& layout.video_info.format == plan.video_info.format
    &&& layout.video_info.width == plan.video_info.width
    &&& layout.video_info.height == plan.video_info.height
    &&& layout.video_info.fps_n == plan.video_info.fps_n
    &&& layout.video_info.fps_d == plan.video_info.fps_d
    &&& layout.video_info.n_planes == plan.video_info.n_planes
    &&& layout.alignment.stride_align == plan.alignment.unwrap().stride_align
    &&& forall|p: int|
        0 <= p < plan.video_info.n_planes ==> (#[trigger] layout.video_info.stride[p]) >= 0 && (
        layout.video_info.stride[p] as usize) & plan.allocation_params.align == 0
}

/// The configuration that the pool hands back, and what it remembers, once a
/// plan is carried out with the layout that was made for it. The stream of
/// the configuration stays as it was proposed; the laid-out description is
/// what the pool remembers, and what the size of a buffer is taken from.
pub open spec fn spec_commit(config: BufferPoolConfig, plan: ConfigPlan, layout: Option<AlignedLayout>) -> Result<
    (BufferPoolConfig, State),
    ConfigError,
> {
    if plan.alignment.is_some() && !(layout.is_some() && spec_layout_fits(plan, layout.unwrap())) {
        Err(ConfigError::Alignment)
    } else {
        let info = if plan.alignment.is_some() {
            layout.unwrap().video_info
        } else {
            plan.video_info
        };
        if info.size > u32::MAX {
            Err(ConfigError::InvalidCaps)
        } else {
            Ok(
                (
                    BufferPoolConfig {
                        params: Some(
                            PoolParams {
                                caps: Some(Caps::Video(plan.video_info)),
                                size: if plan.size >= info.size {
                                    plan.size
                                } else {
                                    info.size as u32
                                },
                                min_buffers: plan.min_buffers,
                                max_buffers: plan.max_buffers,
                            },
                        ),
                        allocator: Some((Some(plan.allocator), plan.allocation_params)),
                        video_meta: config.video_meta,
                        video_alignment_wanted: config.video_alignment_wanted,
                        video_alignment: if plan.alignment.is_some() {
                            Some(layout.unwrap().alignment)
                        } else {
                            config.video_alignment
                        },
                    },
                    State {
                        video_info: Some(info),
                        allocator: Some(plan.allocator),
                        allocation_params: Some(plan.allocation_params),
                        add_video_meta: plan.add_video_meta,
                    },
                ),
            )
        }
    }
}

/// What a pool answers to a configuration and the layout made for it.
pub open spec fn spec_set_config(config: BufferPoolConfig, layout: Option<AlignedLayout>) -> Result<
    (BufferPoolConfig, State),
    ConfigError,
> {
    match spec_plan_config(config) {
        Err(error) => Err(error),
        Ok(plan) => spec_commit(config, plan, layout),
    }
}

proof fn lemma_or_bounds(a: usize, b: u32)
    ensures
        (a | (b as usize)) >= a,
        (a | (b as usize)) >= b,
        (a | (b as usize)) | a == (a | (b as usize)),
{
    let c = b as usize;
    assert((a | c) >= a && (a | c) >= c && ((a | c) | a) == (a | c)) by (bit_vector);
}

proof fn lemma_or_keeps(a: usize, b: usize, c: usize)
    requires
        a | c == a,
    ensures
        (a | b) | c == (a | b),
{
    assert(((a | b) | c) == (a | b)) by (bit_vector)
        requires
            a | c == a,
    ;
}

/// The common alignment is never less than the alignment of the allocation,
/// nor less than the row alignment of any plane, and it keeps every bit of
/// the alignment of the allocation.
pub proof fn lemma_max_align_bounds(align: usize, stride_align: [u32; 4], planes: nat)
    requires
        planes <= 4,
    ensures
        spec_max_align(align, stride_align, planes) >= align,
        spec_max_align(align, stride_align, planes) | align == spec_max_align(
            align,
            stride_align,
            planes,
        ),
        forall|p: int|
            0 <= p < planes ==> spec_max_align(align, stride_align, planes) >= #[trigger] stride_align[p],
    decreases planes,
{
    if planes == 0 {
        assert(align | align == align) by (bit_vector);
    } else {
        let before = spec_max_align(align, stride_align, (planes - 1) as nat);
        lemma_max_align_bounds(align, stride_align, (planes - 1) as nat);
        lemma_or_bounds(before, stride_align[planes - 1]);
        lemma_or_keeps(before, stride_align[planes - 1] as usize, align);
    }
}

/// A configuration never lowers an alignment that was negotiated before: the
/// alignment that the pool settles on is at least the alignment that the
/// configuration brings for the allocation, whatever row alignments come
/// with it, and at least each of those.
pub proof fn lemma_alignment_never_decreases(config: BufferPoolConfig)
    requires
        spec_plan_config(config) is Ok,
    ensures
        ({
            let plan = spec_plan_config(config)->Ok_0;
            let prior = config.allocator.unwrap().1.align;
            &&& plan.allocation_params.align >= prior
            &&& plan.allocation_params.align | prior == plan.allocation_params.align
            &&& plan.alignment matches Some(fixed) ==> forall|p: int|
                0 <= p < plan.video_info.n_planes ==> {
                    &&& (#[trigger] fixed.stride_align[p]) == plan.allocation_params.align
                    &&& fixed.stride_align[p] >= config.video_alignment.unwrap().stride_align[p]
                }
        }),
{
    let plan = spec_plan_config(config)->Ok_0;
    let prior = config.allocator.unwrap().1.align;
    assert(prior | prior == prior) by (bit_vector);
    if plan.alignment.is_some() {
        let wanted = config.video_alignment.unwrap();
        lemma_max_align_bounds(prior, wanted.stride_align, plan.video_info.n_planes as nat);
    }
}

/// A pool that is configured again with the configuration it handed back,
/// changed only in that the rows ask for other alignments, settles on an
/// alignment that is at least the one it settled on before.
pub proof fn lemma_renegotiation_keeps_alignment(
    first: BufferPoolConfig,
    layout: Option<AlignedLayout>,
    stride_align: [u32; 4],
)
    requires
        spec_set_config(first, layout) is Ok,
        spec_set_config(first, layout)->Ok_0.0.video_alignment is Some,
    ensures
        ({
            let settled = spec_set_config(first, layout)->Ok_0;
            let again = BufferPoolConfig {
                video_alignment: Some(
                    VideoAlignment { stride_align, ..settled.0.video_alignment.unwrap() },
                ),
                ..settled.0
            };
            spec_plan_config(again) matches Ok(plan) ==> plan.allocation_params.align
                >= settled.1.allocation_params.unwrap().align
        }),
{
    let settled = spec_set_config(first, layout)->Ok_0;
    let again = BufferPoolConfig {
        video_alignment: Some(VideoAlignment { stride_align, ..settled.0.video_alignment.unwrap() }),
        ..settled.0
    };
    if spec_plan_config(again) is Ok {
        lemma_alignment_never_decreases(again);
    }
}

/// A pool that accepts a configuration hands back the stream and the numbers
/// of buffers as they were proposed, and a buffer size that is the greater
/// of the proposed size and the size of one frame as the pool remembers it.
pub proof fn lemma_accepted_keeps_the_stream(config: BufferPoolConfig, layout: Option<AlignedLayout>)
    requires
        spec_set_config(config, layout) is Ok,
    ensures
        ({
            let proposed = config.params.unwrap();
            let settled = spec_set_config(config, layout)->Ok_0;
            let accepted = settled.0.params.unwrap();
            let frame = settled.1.video_info.unwrap().size;
            &&& config.params is Some
            &&& settled.0.params is Some
            &&& settled.1.video_info is Some
            &&& accepted.caps == proposed.caps
            &&& accepted.min_buffers == proposed.min_buffers
            &&& accepted.max_buffers == proposed.max_buffers
            &&& accepted.size >= proposed.size
            &&& accepted.size >= frame
            &&& accepted.size == proposed.size || accepted.size == frame
        }),
{
}

impl BufferPoolConfig {
    /// A configuration that proposes nothing.
    pub fn new() -> (config: BufferPoolConfig)
        ensures
            config == (BufferPoolConfig {
                params: None,
                allocator: None,
                video_meta: false,
                video_alignment_wanted: false,
                video_alignment: None,
            }),
    {
        BufferPoolConfig {
            params: None,
            allocator: None,
            video_meta: false,
            video_alignment_wanted: false,
            video_alignment: None,
        }
    }

    /// Proposes the stream and the number and size of the buffers.
    pub fn set_params(&mut self, caps: Option<Caps>, size: u32, min_buffers: u32, max_buffers: u32)
        ensures
            *final(self) == (BufferPoolConfig {
                params: Some(PoolParams { caps, size, min_buffers, max_buffers }),
                ..*old(self)
            }),
    {
        self.params = Some(PoolParams { caps, size, min_buffers, max_buffers });
    }

    /// Proposes the backend and how it is to allocate.
    pub fn set_allocator(&mut self, allocator: Option<AllocatorKind>, params: AllocationParams)
        ensures
            *final(self) == (BufferPoolConfig { allocator: Some((allocator, params)), ..*old(self) }),
    {
        self.allocator = Some((allocator, params));
    }

    /// Asks the pool for an option.
    pub fn add_option(&mut self, option: PoolOption)
        ensures
            *final(self) == (match option {
                PoolOption::VideoMeta => BufferPoolConfig { video_meta: true, ..*old(self) },
                PoolOption::VideoAlignment => BufferPoolConfig {
                    video_alignment_wanted: true,
                    ..*old(self)
                },
            }),
    {
        match option {
            PoolOption::VideoMeta => {
                self.video_meta = true;
            },
            PoolOption::VideoAlignment => {
                self.video_alignment_wanted = true;
            },
        }
    }

    /// Whether the pool is asked for an option.
    pub fn has_option(&self, option: PoolOption) -> (asked: bool)
        ensures
            asked == (match option {
                PoolOption::VideoMeta => self.video_meta,
                PoolOption::VideoAlignment => self.video_alignment_wanted,
            }),
    {
        match option {
            PoolOption::VideoMeta => self.video_meta,
            PoolOption::VideoAlignment => self.video_alignment_wanted,
        }
    }

    /// Proposes the alignment of the rows.
    pub fn set_video_alignment(&mut self, alignment: VideoAlignment)
        ensures
            *final(self) == (BufferPoolConfig { video_alignment: Some(alignment), ..*old(self) }),
    {
        self.video_alignment = Some(alignment);
    }
}

/// The alignment that holds for every plane.
fn max_align(align: usize, stride_align: &[u32; 4], planes: usize) -> (common: usize)
    requires
        planes <= 4,
    ensures
        common == spec_max_align(align, *stride_align, planes as nat),
{
    let mut common = align;
    let mut plane: usize = 0;
    while plane < planes
        invariant
            plane <= planes <= 4,
            common == spec_max_align(align, *stride_align, plane as nat),
        decreases planes - plane,
    {
        common = common | (stride_align[plane] as usize);
        plane += 1;
    }
    common
}

/// Whether every row of a description meets an alignment.
fn rows_aligned(info: &VideoInfo, align: usize) -> (aligned: bool)
    requires
        info.n_planes <= 4,
    ensures
        aligned == (forall|p: int|
            0 <= p < info.n_planes ==> (#[trigger] info.stride[p]) >= 0 && (info.stride[p] as usize)
                & align == 0),
{
    let mut plane: usize = 0;
    while plane < info.n_planes as usize
        invariant
            plane <= info.n_planes <= 4,
            forall|p: int|
                0 <= p < plane ==> (#[trigger] info.stride[p]) >= 0 && (info.stride[p] as usize) & align
                    == 0,
        decreases info.n_planes - plane,
    {
        let stride = info.stride[plane];
        if stride < 0 || (stride as usize) & align != 0 {
            return false;
        }
        plane += 1;
    }
    true
}

/// Whether two lists of row alignments are the same.
fn same_strides(left: &[u32; 4], right: &[u32; 4]) -> (same: bool)
    ensures
        same == (*left == *right),
{
    let same = left[0] == right[0] && left[1] == right[1] && left[2] == right[2] && left[3]
        == right[3];
    proof {
        if same {
            assert(left@ =~= right@);
            assert(*left =~= *right);
        }
    }
    same
}

impl SmithayBufferPool {
    /// A pool that is not configured.
    pub fn new() -> (pool: SmithayBufferPool)
        ensures
            pool.state == (State {
                video_info: None,
                allocator: None,
                allocation_params: None,
                add_video_meta: false,
            }),
    {
        SmithayBufferPool {
            state: State {
                video_info: None,
                allocator: None,
                allocation_params: None,
                add_video_meta: false,
            },
        }
    }

    /// The options that the pool knows.
    pub fn options() -> (options: Vec<PoolOption>)
        ensures
            options@ == seq![PoolOption::VideoMeta, PoolOption::VideoAlignment],
    {
        vec![PoolOption::VideoMeta, PoolOption::VideoAlignment]
    }

    /// Reads a configuration and decides what the pool will be: which stream
    /// and backend it serves, and to which alignment the rows have to be
    /// laid out. The pool itself is not changed.
    pub fn plan_config(config: &BufferPoolConfig) -> (plan: Result<ConfigPlan, ConfigError>)
        ensures
            plan == spec_plan_config(*config),
    {
        let params = match config.params {
            Some(params) => params,
            None => {
                return Err(ConfigError::MissingParams);
            },
        };
        let caps = match params.caps {
            Some(caps) => caps,
            None => {
                return Err(ConfigError::MissingCaps);
            },
        };
        let info = match caps {
            Caps::Video(info) => info,
            Caps::Other => {
                return Err(ConfigError::InvalidCaps);
            },
        };
        if info.n_planes as usize > VIDEO_MAX_PLANES {
            return Err(ConfigError::InvalidCaps);
        }
        let (allocator, allocation) = match config.allocator {
            Some((Some(allocator), allocation)) => (allocator, allocation),
            _ => {
                return Err(ConfigError::MissingAllocator);
            },
        };
        match allocator {
            AllocatorKind::Gbm => {
                if gst_video_format_to_drm_fourcc(info.format).is_none() {
                    return Err(ConfigError::UnsupportedFormat);
                }
            },
            _ => {},
        }
        let basic = ConfigPlan {
            video_info: info,
            size: params.size,
            min_buffers: params.min_buffers,
            max_buffers: params.max_buffers,
            allocator,
            allocation_params: allocation,
            add_video_meta: config.video_meta,
            alignment: None,
        };
        if !(config.video_alignment_wanted && config.video_meta) {
            return Ok(basic);
        }
        let wanted = match config.video_alignment {
            Some(wanted) => wanted,
            None => {
                return Ok(basic);
            },
        };
        let planes = info.n_planes as usize;
        let common = max_align(allocation.align, &wanted.stride_align, planes);
        if common > u32::MAX as usize {
            return Err(ConfigError::Alignment);
        }
        let row = common as u32;
        let fixed: [u32; 4] = [
            if planes > 0 {
                row
            } else {
                0
            },
            if planes > 1 {
                row
            } else {
                0
            },
            if planes > 2 {
                row
            } else {
                0
            },
            if planes > 3 {
                row
            } else {
                0
            },
        ];
        assert(fixed@ =~= spec_fixed_strides(row, planes as nat)@);
        Ok(
            ConfigPlan {
                allocation_params: AllocationParams {
                    flags: allocation.flags,
                    align: common,
                    prefix: allocation.prefix,
                    padding: allocation.padding,
                },
                alignment: Some(
                    VideoAlignment {
                        padding_top: wanted.padding_top,
                        padding_bottom: wanted.padding_bottom,
                        padding_left: wanted.padding_left,
                        padding_right: wanted.padding_right,
                        stride_align: fixed,
                    },
                ),
                ..basic
            },
        )
    }

    /// Configures the pool.
    ///
    /// `layout` is the description of the stream laid out for the alignment
    /// that `plan_config` asks for; it is looked at only where the plan asks
    /// for an alignment. The pool accepts the configuration, remembers the
    /// laid-out description and hands back the configuration with what it
    /// changed: the alignment of the allocation raised to the common
    /// alignment, the alignment of the rows, and a buffer size that holds a
    /// laid-out frame. The stream and the numbers of buffers are handed back
    /// as they came. A pool that refuses stays as it was.
    pub fn set_config(&mut self, config: &BufferPoolConfig, layout: Option<AlignedLayout>) -> (result:
        Result<BufferPoolConfig, ConfigError>)
        ensures
            match spec_set_config(*config, layout) {
                Ok((accepted, state)) => result == Ok::<BufferPoolConfig, ConfigError>(accepted)
                    && final(self).state == state,
                Err(error) => result == Err::<BufferPoolConfig, ConfigError>(error) && *final(self)
                    == *old(self),
            },
    {
        let plan = match Self::plan_config(config) {
            Ok(plan) => plan,
            Err(error) => {
                return Err(error);
            },
        };
        let (info, alignment) = match plan.alignment {
            None => (plan.video_info, config.video_alignment),
            Some(fixed) => {
                let layout = match layout {
                    Some(layout) => layout,
                    None => {
                        return Err(ConfigError::Alignment);
                    },
                };
                let found = &layout.video_info;
                if !(found.format == plan.video_info.format && found.width == plan.video_info.width
                    && found.height == plan.video_info.height && found.fps_n
                    == plan.video_info.fps_n && found.fps_d == plan.video_info.fps_d
                    && found.n_planes == plan.video_info.n_planes && same_strides(
                    &layout.alignment.stride_align,
                    &fixed.stride_align,
                ) && rows_aligned(found, plan.allocation_params.align)) {
                    return Err(ConfigError::Alignment);
                }
                (layout.video_info, Some(layout.alignment))
            },
        };
        if info.size > u32::MAX as usize {
            return Err(ConfigError::InvalidCaps);
        }
        let frame = info.size as u32;
        let size = if plan.size >= frame {
            plan.size
        } else {
            frame
        };
        self.state = State {
            video_info: Some(info),
            allocator: Some(plan.allocator),
            allocation_params: Some(plan.allocation_params),
            add_video_meta: plan.add_video_meta,
        };
        Ok(
            BufferPoolConfig {
                params: Some(
                    PoolParams {
                        caps: Some(Caps::Video(plan.video_info)),
                        size,
                        min_buffers: plan.min_buffers,
                        max_buffers: plan.max_buffers,
                    },
                ),
                allocator: Some((Some(plan.allocator), plan.allocation_params)),
                video_meta: config.video_meta,
                video_alignment_wanted: config.video_alignment_wanted,
                video_alignment: alignment,
            },
        )
    }
}

/// One block of the memory of a buffer.
#[derive(Clone, Copy, Debug, PartialEq, Eq, Structural)]
pub struct Memory {
    /// The file descriptor that the buffer descriptor will own, where the
    /// block is memory of a device that can be shared by file descriptor;
    /// `None` for ordinary memory.
    pub fd: Option<i32>,
    /// Where the block starts within its file descriptor.
    pub offset: usize,
    /// The size of the block, in bytes.
    pub size: usize,
}

/// The record on a buffer that carries its buffer descriptor.
#[derive(Debug)]
pub struct SmithayBufferMeta {
    dmabuf: BufferDescriptor,
}

/// A buffer of the pool.
#[derive(Debug)]
pub struct PoolBuffer {
    /// The memory of the buffer, block by block.
    pub memories: Vec<Memory>,
    /// The buffer descriptor, where the memory can be shared without a copy.
    pub meta: Option<SmithayBufferMeta>,
    /// Where the planes lie, where the pool was asked to tell.
    pub video_meta: Option<VideoMeta>,
    /// Whether the frame has to be copied into the buffer.
    pub must_copy: bool,
}

/// Why the pool has no buffer.
#[derive(Debug)]
pub enum PoolError {
    /// The pool was not configured.
    NotConfigured,
    /// The backend failed.
    Allocation(AllocError),
    /// The backend returned no memory.
    NoMemory,
    /// The format of the stream has no four-character code.
    UnsupportedFormat,
    /// A plane does not lie in memory that can be shared, or its place or
    /// row length cannot be told in 32 bits.
    Layout,
    /// The planes do not make a valid buffer descriptor.
    Descriptor,
}

/// The block that holds the byte at `offset` of the buffer, counted through
/// the blocks in their order, and the place of that byte within the block;
/// `None` where the buffer has no such byte.
pub open spec fn spec_find_memory(memories: Seq<Memory>, offset: int) -> Option<(int, int)>
    decreases memories.len(),
{
    if memories.len() == 0 {
        None
    } else if offset < memories[0].size {
        Some((0, offset))
    } else {
        match spec_find_memory(memories.subrange(1, memories.len() as int), offset - memories[0].size) {
            Some((index, skip)) => Some((index + 1, skip)),
            None => None,
        }
    }
}

/// The plane of the descriptor that stands for a plane of the stream, or
/// `None` where the plane cannot be described.
pub open spec fn spec_plane(info: VideoInfo, memories: Seq<Memory>, plane: int) -> Option<Plane> {
    match spec_find_memory(memories, info.offset[plane] as int) {
        None => None,
        Some((index, skip)) => {
            let memory = memories[index];
            if memory.fd.is_some() && memory.offset + skip <= u32::MAX && info.stride[plane] >= 0 {
                Some(
                    Plane {
                        fd: memory.fd.unwrap(),
                        plane_idx: plane as u32,
                        offset: (memory.offset + skip) as u32,
                        stride: info.stride[plane] as u32,
                    },
                )
            } else {
                None
            }
        },
    }
}

/// What the pool makes of allocated memory: an error; `Ok(None)` for a
/// buffer of ordinary memory, which the frame has to be copied into; or the
/// buffer descriptor of a buffer that can be shared.
pub open spec fn spec_alloc_outcome(state: State, id: u64, memories: Seq<Memory>) -> Result<
    Option<DescriptorView>,
    PoolError,
> {
    if state.video_info.is_none() {
        Err(PoolError::NotConfigured)
    } else if memories.len() == 0 {
        Err(PoolError::NoMemory)
    } else if memories[0].fd.is_none() {
        Ok(None)
    } else {
        let info = state.video_info.unwrap();
        if spec_video_format_to_fourcc(info.format).is_none() {
            Err(PoolError::UnsupportedFormat)
        } else if info.n_planes > VIDEO_MAX_PLANES || exists|p: int|
            0 <= p < info.n_planes && (#[trigger] spec_plane(info, memories, p)).is_none() {
            Err(PoolError::Layout)
        } else {
            let view = DescriptorView {
                id,
                width: info.width,
                height: info.height,
                format: spec_video_format_to_fourcc(info.format).unwrap(),
                modifier: DRM_FORMAT_MOD_LINEAR,
                flags: 0,
                planes: Seq::new(info.n_planes as nat, |p: int| spec_plane(info, memories, p).unwrap()),
            };
            if view.wf() {
                Ok(Some(view))
            } else {
                Err(PoolError::Descriptor)
            }
        }
    }
}

/// A found place, with the position of its block counted from `by` blocks earlier.
pub open spec fn spec_shifted(found: Option<(int, int)>, by: int) -> Option<(int, int)> {
    match found {
        Some((index, skip)) => Some((index + by, skip)),
        None => None,
    }
}

/// A found place lies within a block of the buffer.
pub proof fn lemma_find_memory(memories: Seq<Memory>, offset: int)
    requires
        offset >= 0,
    ensures
        spec_find_memory(memories, offset) matches Some((index, skip)) ==> 0 <= index < memories.len()
            && 0 <= skip < memories[index].size,
    decreases memories.len(),
{
    if memories.len() > 0 && offset >= memories[0].size {
        let rest = memories.subrange(1, memories.len() as int);
        lemma_find_memory(rest, offset - memories[0].size);
        match spec_find_memory(rest, offset - memories[0].size) {
            Some((index, skip)) => {
                assert(rest[index] == memories[index + 1]);
            },
            None => {},
        }
    }
}

/// The block that holds the byte at `offset` of the buffer, and the place of
/// that byte within the block.
pub fn find_memory(memories: &Vec<Memory>, offset: usize) -> (found: Option<(usize, usize)>)
    ensures
        found.is_some() == spec_find_memory(memories@, offset as int).is_some(),
        found matches Some(place) ==> {
            &&& spec_find_memory(memories@, offset as int) == Some((place.0 as int, place.1 as int))
            &&& place.0 < memories@.len()
            &&& place.1 < memories@[place.0 as int].size
        },
{
    let mut index: usize = 0;
    let mut rest = offset;
    proof {
        lemma_find_memory(memories@, offset as int);
        assert(memories@.subrange(0, memories@.len() as int) == memories@);
    }
    while index < memories.len()
        invariant
            index <= memories.len(),
            rest <= offset,
            spec_find_memory(memories@, offset as int) == spec_shifted(
                spec_find_memory(
                    memories@.subrange(index as int, memories@.len() as int),
                    rest as int,
                ),
                index as int,
            ),
            spec_find_memory(memories@, offset as int) matches Some((i, s)) ==> 0 <= i
                < memories@.len() && 0 <= s < memories@[i].size,
        decreases memories.len() - index,
    {
        let ghost tail = memories@.subrange(index as int, memories@.len() as int);
        assert(tail[0] == memories@[index as int]);
        assert(tail.subrange(1, tail.len() as int) == memories@.subrange(
            index as int + 1,
            memories@.len() as int,
        ));
        if rest < memories[index].size {
            return Some((index, rest));
        }
        rest = rest - memories[index].size;
        index += 1;
    }
    None
}

impl SmithayBufferMeta {
    pub closed spec fn view(&self) -> DescriptorView {
        self.dmabuf@
    }

    /// Puts the record with the given buffer descriptor on a buffer, in place
    /// of any that the buffer carries, and marks the buffer as one that needs
    /// no copy.
    pub fn add(buffer: &mut PoolBuffer, dmabuf: BufferDescriptor)
        ensures
            final(buffer).meta matches Some(meta) && meta@ == dmabuf@,
            final(buffer).memories == old(buffer).memories,
            final(buffer).video_meta == old(buffer).video_meta,
            !final(buffer).must_copy,
    {
        buffer.meta = Some(SmithayBufferMeta { dmabuf });
        buffer.must_copy = false;
    }

    /// The buffer descriptor of the record.
    pub fn get_dma_buffer(&self) -> (dmabuf: &BufferDescriptor)
        ensures
            dmabuf@ == self@,
            dmabuf.wf(),
    {
        let id = self.dmabuf.id();
        &self.dmabuf
    }
}

/// The plane of the descriptor that stands for a plane of the stream.
fn plane_of(info: &VideoInfo, memories: &Vec<Memory>, plane: usize) -> (result: Option<Plane>)
    requires
        plane < 4,
    ensures
        result == spec_plane(*info, memories@, plane as int),
{
    let (index, skip) = match find_memory(memories, info.offset[plane]) {
        Some(found) => found,
        None => {
            return None;
        },
    };
    assert(spec_find_memory(memories@, info.offset[plane as int] as int) == Some(
        (index as int, skip as int),
    ));
    let memory = memories[index];
    let stride = info.stride[plane];
    let fd = match memory.fd {
        Some(fd) => fd,
        None => {
            return None;
        },
    };
    if stride < 0 || skip > u32::MAX as usize || memory.offset > u32::MAX as usize - skip {
        return None;
    }
    Some(
        Plane {
            fd,
            plane_idx: plane as u32,
            offset: (memory.offset + skip) as u32,
            stride: stride as u32,
        },
    )
}

impl SmithayBufferPool {
    /// The backend to take the memory of the next buffer from, and the number
    /// of bytes to ask it for; `None` where the pool is not configured.
    pub fn allocation_request(&self) -> (request: Option<(AllocatorKind, usize)>)
        ensures
            request == (if self.state.video_info.is_some() && self.state.allocator.is_some() {
                Some((self.state.allocator.unwrap(), self.state.video_info.unwrap().size))
            } else {
                None
            }),
    {
        match (self.state.video_info, self.state.allocator) {
            (Some(info), Some(allocator)) => Some((allocator, info.size)),
            _ => None,
        }
    }

    /// Makes a buffer of the memory that the backend returned.
    ///
    /// Memory that can be shared by file descriptor is described by a buffer
    /// descriptor of the given identity, made by walking the planes of the
    /// stream; the descriptor is put on the buffer, together with the record
    /// of where the planes lie if the pool was asked for it, and the buffer
    /// needs no copy. Ordinary memory gives a buffer without a descriptor,
    /// which the frame has to be copied into. The pool has no buffer where
    /// the backend failed, where the pool is not configured, and where the
    /// planes cannot be described.
    #[verifier::loop_isolation(false)]
    pub fn alloc_buffer(&self, id: u64, allocated: Result<Vec<Memory>, AllocError>) -> (result: Result<
        PoolBuffer,
        PoolError,
    >)
        ensures
            match allocated {
                Err(error) => result matches Err(PoolError::Allocation(cause)) && cause == error,
                Ok(memories) => match spec_alloc_outcome(self.state, id, memories@) {
                    Err(error) => result matches Err(found) && found == error,
                    Ok(None) => {
                        &&& result matches Ok(buffer)
                        &&& buffer.memories@ == memories@
                        &&& buffer.meta is None
                        &&& buffer.video_meta is None
                        &&& buffer.must_copy
                    },
                    Ok(Some(view)) => {
                        &&& result matches Ok(buffer)
                        &&& buffer.memories@ == memories@
                        &&& buffer.meta matches Some(meta) && meta@ == view
                        &&& buffer.video_meta == (if self.state.add_video_meta {
                            Some(self.state.video_info.unwrap().spec_video_meta())
                        } else {
                            None
                        })
                        &&& !buffer.must_copy
                    },
                },
            },
    {
        let memories = match allocated {
            Ok(memories) => memories,
            Err(error) => {
                return Err(PoolError::Allocation(error));
            },
        };
        let info = match self.state.video_info {
            Some(info) => info,
            None => {
                return Err(PoolError::NotConfigured);
            },
        };
        if memories.len() == 0 {
            return Err(PoolError::NoMemory);
        }
        if memories[0].fd.is_none() {
            return Ok(PoolBuffer { memories, meta: None, video_meta: None, must_copy: true });
        }
        let format = match gst_video_format_to_drm_fourcc(info.format) {
            Some(format) => format,
            None => {
                return Err(PoolError::UnsupportedFormat);
            },
        };
        if info.n_planes as usize > VIDEO_MAX_PLANES {
            return Err(PoolError::Layout);
        }
        let count = info.n_planes as usize;
        let mut planes: Vec<Plane> = Vec::new();
        let mut plane: usize = 0;
        while plane < count
            invariant
                plane <= count <= 4,
                count == info.n_planes,
                planes@.len() == plane,
                forall|p: int|
                    0 <= p < plane ==> (#[trigger] spec_plane(info, memories@, p)) == Some(planes@[p]),
            decreases count - plane,
        {
            match plane_of(&info, &memories, plane) {
                Some(found) => {
                    planes.push(found);
                },
                None => {
                    assert(spec_plane(info, memories@, plane as int).is_none());
                    return Err(PoolError::Layout);
                },
            }
            plane += 1;
        }
        let ghost view = DescriptorView {
            id,
            width: info.width,
            height: info.height,
            format,
            modifier: DRM_FORMAT_MOD_LINEAR,
            flags: 0,
            planes: Seq::new(info.n_planes as nat, |p: int| spec_plane(info, memories@, p).unwrap()),
        };
        assert(planes@ =~= view.planes);
        assert(spec_alloc_outcome(self.state, id, memories@) == if view.wf() {
            Ok::<Option<DescriptorView>, PoolError>(Some(view))
        } else {
            Err::<Option<DescriptorView>, PoolError>(PoolError::Descriptor)
        });
        let mut builder = BufferDescriptor::builder(
            id,
            info.width,
            info.height,
            format,
            DRM_FORMAT_MOD_LINEAR,
            DmabufFlags::empty(),
        );
        let mut added: usize = 0;
        assert(view.planes.subrange(0, 0) =~= Seq::<Plane>::empty());
        while added < count
            invariant
                added <= count <= 4,
                planes@ == view.planes,
                planes@.len() == count,
                forall|p: int| 0 <= p < count ==> (#[trigger] planes@[p]).plane_idx == p,
                builder@ == (DescriptorView { planes: view.planes.subrange(0, added as int), ..view }),
            decreases count - added,
        {
            let next = planes[added];
            let ghost before = builder@.planes;
            let accepted = builder.add_plane(next.fd, next.plane_idx, next.offset, next.stride);
            if !accepted {
                proof {
                    if next.fd >= 0 {
                        let k = choose|k: int| 0 <= k < before.len() && (#[trigger] before[k]).fd == next.fd;
                        assert(view.planes[k].fd == view.planes[added as int].fd);
                    }
                    assert(!view.wf());
                }
                return Err(PoolError::Descriptor);
            }
            proof {
                lemma_with_plane_appends(before, next);
                assert(before.push(next) =~= view.planes.subrange(0, added as int + 1));
            }
            added += 1;
        }
        assert(view.planes.subrange(0, count as int) =~= view.planes);
        let dmabuf = match builder.build() {
            Some(dmabuf) => dmabuf,
            None => {
                return Err(PoolError::Descriptor);
            },
        };
        let video_meta = if self.state.add_video_meta {
            Some(info.video_meta())
        } else {
            None
        };
        let mut buffer = PoolBuffer { memories, meta: None, video_meta, must_copy: true };
        SmithayBufferMeta::add(&mut buffer, dmabuf);
        Ok(buffer)
    }

    /// Takes back a buffer that is no longer used. The pool keeps nothing of it.
    pub fn free_buffer(&self, buffer: PoolBuffer) -> (freed: PoolBuffer)
        ensures
            freed == buffer,
    {
        buffer
    }
}

} // verus!
