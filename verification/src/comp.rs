//! The compositor's side of the render command channel: what the compositor
//! does with each command, and how it keeps the ages of the buffers that it
//! is asked to render into.
//!
//! The buffers belong to the producer. The compositor knows them by their
//! identity only, and forgets a buffer that the producer gave up.

use vstd::prelude::*;
use crate::dmabuf::BufferDescriptor;
use crate::swapchain::{aged, spec_aged};
use crate::video::VideoInfo;
use crate::waylandsrc::Command;

verus! {

/// The mode of the output: its size in pixels and its rate as a fraction.
#[derive(Clone, Copy, Debug, PartialEq, Eq, Structural)]
pub struct OutputMode {
    pub width: i32,
    pub height: i32,
    pub fps_n: i32,
    pub fps_d: i32,
}

/// A buffer that the compositor rendered into, and its age.
#[derive(Clone, Copy, Debug, PartialEq, Eq, Structural)]
pub struct KnownBuffer {
    pub id: u64,
    pub age: u8,
}

/// What the command channel delivers.
pub enum Event<A> {
    /// A command.
    Msg(Command<A>),
    /// The producer closed the channel.
    Closed,
}

/// What the compositor has to do for an event. An acknowledgement that came
/// with a command is handed on, to be fired when the work is done.
pub enum Reaction<A> {
    /// Set the output to the mode.
    Configure(OutputMode),
    /// Render the scene into the buffer, which has the given age, then tell
    /// the compositor how the rendering ended, then acknowledge.
    Render { target: BufferDescriptor, age: u8, ack: A },
    /// Acknowledge without rendering: there is no output yet.
    Acknowledge { target: BufferDescriptor, ack: A },
    /// Stop the event loop.
    Quit,
}

/// What the compositor is, as a mathematical value.
pub struct StateView {
    pub output: Option<OutputMode>,
    pub should_quit: bool,
    pub buffers_known: Seq<KnownBuffer>,
}

/// The part of the compositor that answers the command channel.
#[derive(Debug)]
pub struct State {
    output: Option<OutputMode>,
    should_quit: bool,
    buffers_known: Vec<KnownBuffer>,
}

/// The mode that a description of the stream asks for.
pub open spec fn spec_mode(info: VideoInfo) -> OutputMode {
    OutputMode {
        width: info.width as i32,
        height: info.height as i32,
        fps_n: info.fps_n,
        fps_d: info.fps_d,
    }
}

/// No identity occurs twice.
pub open spec fn spec_distinct(known: Seq<KnownBuffer>) -> bool {
    forall|i: int, j: int| 0 <= i < j < known.len() ==> known[i].id != known[j].id
}

/// The age of the buffer of the given identity: the age that is kept for it,
/// or zero for a buffer that is not known.
pub open spec fn spec_age_of(known: Seq<KnownBuffer>, id: u64) -> u8
    decreases known.len(),
{
    if known.len() == 0 {
        0
    } else if known.last().id == id {
        known.last().age
    } else {
        spec_age_of(known.drop_last(), id)
    }
}

/// Whether a buffer of the given identity is known.
pub open spec fn spec_knows(known: Seq<KnownBuffer>, id: u64) -> bool
    decreases known.len(),
{
    known.len() > 0 && (known.last().id == id || spec_knows(known.drop_last(), id))
}

/// Keeps every buffer but the one of the given identity.
pub open spec fn spec_keep_other(id: u64) -> spec_fn(KnownBuffer) -> Option<KnownBuffer> {
    |buffer: KnownBuffer|
        if buffer.id != id {
            Some(buffer)
        } else {
            None
        }
}

/// Keeps every buffer that is alive but the one of the given identity, and
/// makes it one frame older.
pub open spec fn spec_keep_alive(id: u64, alive: Seq<u64>) -> spec_fn(KnownBuffer) -> Option<
    KnownBuffer,
> {
    |buffer: KnownBuffer|
        if buffer.id != id && alive.contains(buffer.id) {
            Some(KnownBuffer { id: buffer.id, age: spec_aged(buffer.age) })
        } else {
            None
        }
}

/// The known buffers without the one of the given identity.
pub open spec fn spec_without(known: Seq<KnownBuffer>, id: u64) -> Seq<KnownBuffer> {
    known.filter_map(spec_keep_other(id))
}

/// The known buffers after a frame was rendered into the buffer `id`: the
/// buffers that are no longer alive are forgotten, every other buffer is one
/// frame older, and the buffer `id` comes last, with age one.
pub open spec fn spec_after_frame(known: Seq<KnownBuffer>, id: u64, alive: Seq<u64>) -> Seq<
    KnownBuffer,
> {
    known.filter_map(spec_keep_alive(id, alive)).push(KnownBuffer { id, age: 1 })
}

/// The known buffers after one frame for the buffer `id`: the frame is
/// started, and then rendered.
pub open spec fn spec_after_cycle(known: Seq<KnownBuffer>, id: u64, alive: Seq<u64>) -> Seq<
    KnownBuffer,
> {
    spec_after_frame(spec_without(known, id), id, alive)
}

/// The known buffers after one frame for each of the buffers `ids`, in their
/// order.
pub open spec fn spec_after_cycles(known: Seq<KnownBuffer>, ids: Seq<u64>, alive: Seq<u64>) -> Seq<
    KnownBuffer,
>
    decreases ids.len(),
{
    if ids.len() == 0 {
        known
    } else {
        spec_after_cycle(spec_after_cycles(known, ids.drop_last(), alive), ids.last(), alive)
    }
}

impl StateView {
    /// The compositor after a description of the stream arrived: the output
    /// has the mode of the stream; the buffers stay known where the size of
    /// the output stays, and are forgotten where it changes.
    pub open spec fn after_video_info(self, info: VideoInfo) -> StateView {
        let mode = spec_mode(info);
        StateView {
            output: Some(mode),
            buffers_known: if self.output matches Some(old) && old.width == mode.width && old.height
                == mode.height {
                self.buffers_known
            } else {
                Seq::empty()
            },
            ..self
        }
    }
}

impl State {
    pub closed spec fn view(&self) -> StateView {
        StateView {
            output: self.output,
            should_quit: self.should_quit,
            buffers_known: self.buffers_known@,
        }
    }

    /// The invariant of the compositor: no buffer is known twice.
    pub open spec fn wf(&self) -> bool {
        spec_distinct(self@.buffers_known)
    }

    #[verifier::type_invariant]
    closed spec fn inv(&self) -> bool {
        self.wf()
    }

    /// A compositor without output that knows no buffer.
    pub fn new() -> (state: State)
        ensures
            state@ == (StateView { output: None, should_quit: false, buffers_known: Seq::empty() }),
            state.wf(),
    {
        State { output: None, should_quit: false, buffers_known: Vec::new() }
    }

    /// Whether the event loop has to stop.
    pub fn should_quit(&self) -> (quit: bool)
        ensures
            quit == self@.should_quit,
    {
        self.should_quit
    }

    /// The mode of the output, if it has one.
    pub fn output(&self) -> (output: Option<OutputMode>)
        ensures
            output == self@.output,
    {
        self.output
    }

    /// The age that is kept for a buffer; zero for a buffer that is not known.
    pub fn age_of(&self, id: u64) -> (age: u8)
        ensures
            age == spec_age_of(self@.buffers_known, id),
    {
        let mut age: u8 = 0;
        let mut i: usize = 0;
        assert(self.buffers_known@.subrange(0, 0) =~= Seq::<KnownBuffer>::empty());
        while i < self.buffers_known.len()
            invariant
                i <= self.buffers_known.len(),
                age == spec_age_of(self.buffers_known@.subrange(0, i as int), id),
            decreases self.buffers_known.len() - i,
        {
            let ghost next = self.buffers_known@.subrange(0, i as int + 1);
            assert(next.drop_last() =~= self.buffers_known@.subrange(0, i as int));
            assert(next.last() == self.buffers_known@[i as int]);
            if self.buffers_known[i].id == id {
                age = self.buffers_known[i].age;
            }
            i += 1;
        }
        assert(self.buffers_known@.subrange(0, i as int) =~= self.buffers_known@);
        age
    }

    /// Starts a frame for the buffer of the given identity. Without an
    /// output nothing is rendered, the result is `None`, and nothing changes.
    /// With an output the result is the age of the buffer, and the buffer is
    /// taken out of the known ones: it comes back when the frame is done, and
    /// stays forgotten if the rendering fails.
    pub fn create_frame(&mut self, id: u64) -> (age: Option<u8>)
        ensures
            final(self).wf(),
            old(self)@.output.is_none() ==> age.is_none() && final(self)@ == old(self)@,
            old(self)@.output.is_some() ==> {
                &&& age == Some(spec_age_of(old(self)@.buffers_known, id))
                &&& final(self)@ == (StateView {
                    buffers_known: spec_without(old(self)@.buffers_known, id),
                    ..old(self)@
                })
            },
    {
        proof {
            use_type_invariant(&*self);
        }
        if self.output.is_none() {
            return None;
        }
        let age = self.age_of(id);
        let ghost known = self.buffers_known@;
        let mut left: Vec<KnownBuffer> = Vec::new();
        let mut i: usize = 0;
        assert(known.subrange(0, 0) =~= Seq::<KnownBuffer>::empty());
        while i < self.buffers_known.len()
            invariant
                i <= self.buffers_known.len(),
                known == self.buffers_known@,
                spec_distinct(known),
                left@ == known.subrange(0, i as int).filter_map(spec_keep_other(id)),
                forall|k: int|
                    0 <= k < left@.len() ==> exists|m: int|
                        0 <= m < i && known[m].id == (#[trigger] left@[k]).id,
                spec_distinct(left@),
            decreases self.buffers_known.len() - i,
        {
            let ghost next = known.subrange(0, i as int + 1);
            let ghost before = left@;
            assert(next.drop_last() =~= known.subrange(0, i as int));
            assert(next.last() == known[i as int]);
            let buffer = self.buffers_known[i];
            if buffer.id != id {
                left.push(buffer);
            }
            proof {
                assert(left@ =~= next.filter_map(spec_keep_other(id)));
                assert forall|k: int| 0 <= k < left@.len() implies exists|m: int|
                    0 <= m < i + 1 && known[m].id == (#[trigger] left@[k]).id by {
                    if k < before.len() {
                        assert(left@[k] == before[k]);
                        let m = choose|m: int| 0 <= m < i && known[m].id == before[k].id;
                        assert(known[m].id == left@[k].id);
                    } else {
                        assert(known[i as int].id == left@[k].id);
                    }
                }
                assert forall|a: int, b: int| 0 <= a < b < left@.len() implies left@[a].id
                    != left@[b].id by {
                    assert(left@[a] == before[a]);
                    if b < before.len() {
                        assert(left@[b] == before[b]);
                    } else {
                        let m = choose|m: int| 0 <= m < i && known[m].id == before[a].id;
                        assert(known[m].id != known[i as int].id);
                    }
                }
            }
            i += 1;
        }
        proof {
            assert(known.subrange(0, i as int) =~= known);
        }
        self.buffers_known = left;
        Some(age)
    }

    /// Records that a frame was rendered into the buffer of the given
    /// identity. `alive` lists the buffers that the producer still holds: the
    /// others are forgotten. Every buffer that stays is one frame older, and
    /// the buffer of the frame has age one.
    pub fn frame_rendered(&mut self, id: u64, alive: &Vec<u64>)
        ensures
            final(self).wf(),
            final(self)@ == (StateView {
                buffers_known: spec_after_frame(old(self)@.buffers_known, id, alive@),
                ..old(self)@
            }),
    {
        proof {
            use_type_invariant(&*self);
        }
        let ghost known = self.buffers_known@;
        let mut left: Vec<KnownBuffer> = Vec::new();
        let mut i: usize = 0;
        assert(known.subrange(0, 0) =~= Seq::<KnownBuffer>::empty());
        while i < self.buffers_known.len()
            invariant
                i <= self.buffers_known.len(),
                known == self.buffers_known@,
                spec_distinct(known),
                left@ == known.subrange(0, i as int).filter_map(spec_keep_alive(id, alive@)),
                forall|k: int|
                    0 <= k < left@.len() ==> (#[trigger] left@[k]).id != id && exists|m: int|
                        0 <= m < i && known[m].id == left@[k].id,
                spec_distinct(left@),
            decreases self.buffers_known.len() - i,
        {
            let ghost next = known.subrange(0, i as int + 1);
            assert(next.drop_last() =~= known.subrange(0, i as int));
            assert(next.last() == known[i as int]);
            let buffer = self.buffers_known[i];
            if buffer.id != id && contains(alive, buffer.id) {
                let ghost before = left@;
                left.push(KnownBuffer { id: buffer.id, age: aged(buffer.age) });
                proof {
                    assert(left@ =~= next.filter_map(spec_keep_alive(id, alive@)));
                    assert forall|a: int, b: int| 0 <= a < b < left@.len() implies left@[a].id
                        != left@[b].id by {
                        if b == left@.len() - 1 {
                            assert(left@[a] == before[a]);
                            let m = choose|m: int| 0 <= m < i && known[m].id == before[a].id;
                            assert(known[m].id != known[i as int].id);
                        } else {
                            assert(left@[a] == before[a]);
                            assert(left@[b] == before[b]);
                        }
                    }
                    assert forall|k: int| 0 <= k < left@.len() implies (#[trigger] left@[k]).id != id
                        && exists|m: int| 0 <= m < i + 1 && known[m].id == left@[k].id by {
                        if k < before.len() {
                            assert(left@[k] == before[k]);
                            let m = choose|m: int| 0 <= m < i && known[m].id == before[k].id;
                            assert(known[m].id == left@[k].id);
                        } else {
                            assert(known[i as int].id == left@[k].id);
                        }
                    }
                }
            } else {
                proof {
                    assert(left@ =~= next.filter_map(spec_keep_alive(id, alive@)));
                    assert forall|k: int| 0 <= k < left@.len() implies (#[trigger] left@[k]).id != id
                        && exists|m: int| 0 <= m < i + 1 && known[m].id == left@[k].id by {
                        let m = choose|m: int| 0 <= m < i && known[m].id == left@[k].id;
                        assert(known[m].id == left@[k].id);
                    }
                }
            }
            i += 1;
        }
        proof {
            assert(known.subrange(0, i as int) =~= known);
        }
        let ghost before = left@;
        left.push(KnownBuffer { id, age: 1 });
        proof {
            assert forall|a: int, b: int| 0 <= a < b < left@.len() implies left@[a].id
                != left@[b].id by {
                assert(left@[a] == before[a]);
                if b < left@.len() - 1 {
                    assert(left@[b] == before[b]);
                }
            }
        }
        self.buffers_known = left;
    }

    /// Decides what to do for an event of the command channel.
    ///
    /// A description of the stream sets the mode of the output; handling the
    /// same description again changes nothing more. A request for a frame is
    /// answered by rendering into its buffer with the age that is kept for
    /// it, or, without an output, by acknowledging at once; either way the
    /// acknowledgement of the request is handed on, so that it is fired
    /// once. A request to quit, and the end of the channel, stop the loop.
    pub fn handle_event<A>(&mut self, event: Event<A>) -> (reaction: Reaction<A>)
        ensures
            final(self).wf(),
            match event {
                Event::Msg(Command::VideoInfo(info)) => {
                    &&& reaction matches Reaction::Configure(mode) && mode == spec_mode(info)
                    &&& final(self)@ == old(self)@.after_video_info(info)
                },
                Event::Msg(Command::Buffer(target, ack)) => if old(self)@.output.is_none() {
                    &&& reaction matches Reaction::Acknowledge { target: buffer, ack: fire }
                    &&& buffer@ == target@ && fire == ack
                    &&& final(self)@ == old(self)@
                } else {
                    &&& reaction matches Reaction::Render { target: buffer, age, ack: fire }
                    &&& buffer@ == target@ && fire == ack
                    &&& age == spec_age_of(old(self)@.buffers_known, target@.id)
                    &&& final(self)@ == (StateView {
                        buffers_known: spec_without(old(self)@.buffers_known, target@.id),
                        ..old(self)@
                    })
                },
                Event::Msg(Command::Quit) | Event::Closed => {
                    &&& reaction is Quit
                    &&& final(self)@ == (StateView { should_quit: true, ..old(self)@ })
                },
            },
    {
        proof {
            use_type_invariant(&*self);
        }
        match event {
            Event::Msg(Command::VideoInfo(info)) => {
                let mode = OutputMode {
                    width: info.width as i32,
                    height: info.height as i32,
                    fps_n: info.fps_n,
                    fps_d: info.fps_d,
                };
                let same = match self.output {
                    Some(old) => old.width == mode.width && old.height == mode.height,
                    None => false,
                };
                if !same {
                    self.buffers_known = Vec::new();
                }
                self.output = Some(mode);
                Reaction::Configure(mode)
            },
            Event::Msg(Command::Buffer(target, ack)) => {
                let id = target.id();
                match self.create_frame(id) {
                    Some(age) => Reaction::Render { target, age, ack },
                    None => Reaction::Acknowledge { target, ack },
                }
            },
            Event::Msg(Command::Quit) => {
                self.should_quit = true;
                Reaction::Quit
            },
            Event::Closed => {
                self.should_quit = true;
                Reaction::Quit
            },
        }
    }
}

/// Whether a list holds a value.
fn contains(list: &Vec<u64>, value: u64) -> (found: bool)
    ensures
        found == list@.contains(value),
{
    let mut i: usize = 0;
    while i < list.len()
        invariant
            i <= list.len(),
            forall|k: int| 0 <= k < i ==> list@[k] != value,
        decreases list.len() - i,
    {
        if list[i] == value {
            return true;
        }
        i += 1;
    }
    false
}

/// Handling a description of the stream twice is the same as handling it once.
pub proof fn lemma_video_info_idempotent(state: StateView, info: VideoInfo)
    ensures
        state.after_video_info(info).after_video_info(info) == state.after_video_info(info),
{
}

/// A buffer that was rendered into is known with age one, and is handed the
/// age one when the next frame for it starts.
pub proof fn lemma_rendered_has_age_one(known: Seq<KnownBuffer>, id: u64, alive: Seq<u64>)
    ensures
        spec_knows(spec_after_frame(known, id, alive), id),
        spec_age_of(spec_after_frame(known, id, alive), id) == 1,
{
}

/// Starting a frame for one buffer leaves what is known of every other.
proof fn lemma_start_keeps_others(known: Seq<KnownBuffer>, id: u64, other: u64)
    requires
        other != id,
    ensures
        spec_knows(spec_without(known, id), other) == spec_knows(known, other),
        spec_age_of(spec_without(known, id), other) == spec_age_of(known, other),
    decreases known.len(),
{
    if known.len() > 0 {
        let rest = known.drop_last();
        let kept = rest.filter_map(spec_keep_other(id));
        lemma_start_keeps_others(rest, id, other);
        if known.last().id != id {
            let all = kept + seq![known.last()];
            assert(spec_without(known, id) == all);
            assert(all.drop_last() =~= kept);
            assert(all.last() == known.last());
        }
    }
}

/// Rendering a frame into one buffer makes every other buffer that is known
/// and alive one frame older, and leaves a buffer unknown that was unknown.
proof fn lemma_frame_ages_others(known: Seq<KnownBuffer>, id: u64, alive: Seq<u64>, other: u64)
    requires
        other != id,
        alive.contains(other),
    ensures
        ({
            let after = known.filter_map(spec_keep_alive(id, alive));
            &&& spec_knows(after, other) == spec_knows(known, other)
            &&& spec_age_of(after, other) == (if spec_knows(known, other) {
                spec_aged(spec_age_of(known, other))
            } else {
                0u8
            })
        }),
    decreases known.len(),
{
    if known.len() > 0 {
        let rest = known.drop_last();
        let last = known.last();
        let kept = rest.filter_map(spec_keep_alive(id, alive));
        lemma_frame_ages_others(rest, id, alive, other);
        if last.id != id && alive.contains(last.id) {
            let older = KnownBuffer { id: last.id, age: spec_aged(last.age) };
            let all = kept + seq![older];
            assert(known.filter_map(spec_keep_alive(id, alive)) == all);
            assert(all.drop_last() =~= kept);
            assert(all.last() == older);
        }
    }
}

/// One frame for the buffer `id` leaves that buffer known with age one, and
/// every other buffer that was known and is alive one frame older.
pub proof fn lemma_cycle(known: Seq<KnownBuffer>, id: u64, alive: Seq<u64>, other: u64)
    ensures
        spec_knows(spec_after_cycle(known, id, alive), id),
        spec_age_of(spec_after_cycle(known, id, alive), id) == 1,
        other != id && alive.contains(other) ==> {
            &&& spec_knows(spec_after_cycle(known, id, alive), other) == spec_knows(known, other)
            &&& spec_age_of(spec_after_cycle(known, id, alive), other) == (if spec_knows(
                known,
                other,
            ) {
                spec_aged(spec_age_of(known, other))
            } else {
                0u8
            })
        },
{
    let started = spec_without(known, id);
    let older = started.filter_map(spec_keep_alive(id, alive));
    let after = spec_after_cycle(known, id, alive);
    assert(after == older.push(KnownBuffer { id, age: 1 }));
    assert(after.drop_last() =~= older);
    if other != id && alive.contains(other) {
        lemma_start_keeps_others(known, id, other);
        lemma_frame_ages_others(started, id, alive, other);
    }
}

/// The rotation of the buffers. After one frame for each of K buffers that
/// differ and stay alive, at most 255 of them, the buffer of the frame that
/// lies `j` frames back has age `j`: the ages are the numbers from K down to
/// one, and the buffer of the first frame has the greatest. The frame that
/// comes next for that buffer is started with age K, and leaves the buffer
/// known with age one. What was known before the frames does not matter.
pub proof fn lemma_known_buffers_rotate(known: Seq<KnownBuffer>, ids: Seq<u64>, alive: Seq<u64>)
    requires
        ids.no_duplicates(),
        ids.len() <= u8::MAX,
        forall|i: int| 0 <= i < ids.len() ==> alive.contains(#[trigger] ids[i]),
    ensures
        forall|i: int|
            0 <= i < ids.len() ==> {
                &&& spec_knows(spec_after_cycles(known, ids, alive), #[trigger] ids[i])
                &&& spec_age_of(spec_after_cycles(known, ids, alive), ids[i]) == ids.len() - i
            },
        ids.len() > 0 ==> {
            &&& spec_age_of(spec_after_cycles(known, ids, alive), ids[0]) == ids.len()
            &&& spec_age_of(
                spec_after_cycle(spec_after_cycles(known, ids, alive), ids[0], alive),
                ids[0],
            ) == 1
        },
    decreases ids.len(),
{
    if ids.len() > 0 {
        let earlier = ids.drop_last();
        let before = spec_after_cycles(known, earlier, alive);
        let after = spec_after_cycles(known, ids, alive);
        lemma_known_buffers_rotate(known, earlier, alive);
        assert forall|i: int| 0 <= i < ids.len() implies spec_knows(after, #[trigger] ids[i])
            && spec_age_of(after, ids[i]) == ids.len() - i by {
            lemma_cycle(before, ids.last(), alive, ids[i]);
            if i < ids.len() - 1 {
                assert(earlier[i] == ids[i]);
                assert(ids[i] != ids[ids.len() - 1]);
                assert(spec_age_of(before, ids[i]) == earlier.len() - i);
            }
        }
        lemma_cycle(after, ids[0], alive, ids[0]);
    }
}

} // verus!
