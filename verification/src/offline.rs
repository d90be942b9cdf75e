//! The `OfflineAudioContext` type

use vstd::prelude::*;
use crate::concrete_base::{
    BaseView, ConcreteBaseAudioContext, blank_context, hardcoded_ids, initial_context,
    same_settings,
};
use crate::events::{
    AudioBuffer, AudioBufferView, AudioContextState, EventDispatch, EventLoop, EventLoopView,
    EventType, EventView, channel_views,
};
use crate::ids::{
    AudioNodeId, IdsView, LISTENER_PARAM_IDS_END, halves_of_new_queue, id_queue, ids_taken,
};
use crate::message::{ControlMessage, MessageView, Outgoing, outgoing_of, outgoing_views};
use crate::node::{MAX_CHANNELS, RENDER_QUANTUM_SIZE};
use crate::param::Float32;
use crate::suspend::{SuspendSchedule, due, is_place, left_after, rising, scheduled_at};

verus! {

/// Number of render quanta that it takes to render a number of frames.
pub open spec fn quanta_for_spec(frames: int) -> int {
    (frames + RENDER_QUANTUM_SIZE - 1) / RENDER_QUANTUM_SIZE as int
}

/// Number of render quanta that it takes to render a number of frames.
pub fn quanta_for(frames: usize) -> (r: usize)
    ensures
        r == quanta_for_spec(frames as int),
{
    if frames % RENDER_QUANTUM_SIZE == 0 {
        frames / RENDER_QUANTUM_SIZE
    } else {
        frames / RENDER_QUANTUM_SIZE + 1
    }
}

/// The render quantum up to which rendering has to go to reach a frame, or the end of the buffer.
pub open spec fn target_quantum(upto_frame: int, length: int) -> int {
    if upto_frame >= length {
        quanta_for_spec(length)
    } else {
        quanta_for_spec(upto_frame)
    }
}

/// Number of frames of the buffer that a number of render quanta fill.
pub open spec fn frames_in(quanta: int, length: int) -> int {
    if quanta * RENDER_QUANTUM_SIZE < length {
        quanta * RENDER_QUANTUM_SIZE
    } else {
        length
    }
}

/// Sample data of `channels` channels without samples.
pub open spec fn no_samples(channels: nat) -> Seq<Seq<Float32>> {
    Seq::new(channels, |c: int| Seq::empty())
}

/// Sample data of `channels` channels with `frames` samples each.
pub open spec fn has_shape(samples: Seq<Seq<Float32>>, channels: nat, frames: int) -> bool {
    &&& samples.len() == channels
    &&& forall|c: int| 0 <= c < channels ==> (#[trigger] samples[c]).len() == frames
}

/// Sample data, continued on each channel.
pub open spec fn appended(samples: Seq<Seq<Float32>>, more: Seq<Seq<Float32>>) -> Seq<
    Seq<Float32>,
> {
    Seq::new(samples.len(), |c: int| samples[c] + more[c])
}

/// Sample data, of which each channel ends after `length` frames at the latest.
pub open spec fn truncated(samples: Seq<Seq<Float32>>, length: int) -> Seq<Seq<Float32>> {
    samples.map_values(
        |s: Seq<Float32>|
            if s.len() <= length {
                s
            } else {
                s.take(length)
            },
    )
}

/// Why a suspension cannot be scheduled.
#[derive(Clone, Copy, Debug, PartialEq, Eq, Structural)]
pub enum SuspendError {
    /// the quantized time is not after the current time
    NotAfterCurrentTime,
    /// the quantized time is not before the end of the rendering
    NotBeforeEnd,
    /// something has claimed the renderer
    RenderingStarted,
    /// another suspension is scheduled for the same time
    AlreadyScheduled,
}

impl SuspendError {
    /// The text of the error.
    pub fn message(&self) -> (r: &'static str)
        ensures
            match *self {
                SuspendError::NotAfterCurrentTime => r@
                    == "InvalidStateError: suspendTime cannot be less than or equal to the current time"@,
                SuspendError::NotBeforeEnd => r@
                    == "InvalidStateError: suspendTime cannot be greater than or equal to the total render duration"@,
                SuspendError::RenderingStarted => r@
                    == "InvalidStateError - cannot suspend when rendering has already started"@,
                SuspendError::AlreadyScheduled => r@
                    == "InvalidStateError - cannot suspend multiple times at the same render quantum"@,
            },
    {
        match *self {
            SuspendError::NotAfterCurrentTime =>
            "InvalidStateError: suspendTime cannot be less than or equal to the current time",
            SuspendError::NotBeforeEnd =>
            "InvalidStateError: suspendTime cannot be greater than or equal to the total render duration",
            SuspendError::RenderingStarted =>
            "InvalidStateError - cannot suspend when rendering has already started",
            SuspendError::AlreadyScheduled =>
            "InvalidStateError - cannot suspend multiple times at the same render quantum",
        }
    }
}

/// The verdict on a suspension at a render quantum, given what is scheduled (nothing once
/// rendering has started). Until rendering starts, the current time is zero.
pub open spec fn suspend_verdict<T>(
    scheduled: Option<Seq<(usize, T)>>,
    length: usize,
    quantum: usize,
) -> Result<(), SuspendError> {
    if quantum == 0 {
        Err(SuspendError::NotAfterCurrentTime)
    } else if quantum * RENDER_QUANTUM_SIZE >= length {
        Err(SuspendError::NotBeforeEnd)
    } else {
        match scheduled {
            None => Err(SuspendError::RenderingStarted),
            Some(entries) => if scheduled_at(entries, quantum) {
                Err(SuspendError::AlreadyScheduled)
            } else {
                Ok(())
            },
        }
    }
}

/// What is scheduled for a renderer that has not been claimed: promises to resolve (via `suspend`)
/// and callbacks to run (via `suspend_sync`) at certain render quanta.
struct Renderer<W, C> {
    suspend_promises: SuspendSchedule<W>,
    suspend_callbacks: SuspendSchedule<C>,
}

/// Cross-call state of an incremental offline render.
struct IncrementalRender {
    buffer: Vec<Vec<Float32>>,
    /// number of render quanta produced so far
    quantum: usize,
}

/// An unclaimed renderer, as contracts speak of it.
#[verifier::ext_equal]
pub struct RendererView<W, C> {
    pub suspend_promises: Seq<(usize, W)>,
    pub suspend_callbacks: Seq<(usize, C)>,
}

/// The state of an incremental render, as contracts speak of it.
#[verifier::ext_equal]
pub struct IncrementalView {
    pub buffer: Seq<Seq<Float32>>,
    pub quantum: usize,
}

/// The `OfflineAudioContext` doesn't render the audio to the device hardware; instead, it generates
/// it, as fast as it can, and outputs the result to an [`AudioBuffer`].
///
/// `P` stands for what only the render thread understands, `H` for event handlers, `W` for the
/// promises of [`Self::suspend`] and `C` for the callbacks of [`Self::suspend_sync`].
pub struct OfflineAudioContext<P, H, W, C> {
    /// represents the underlying `BaseAudioContext`
    base: ConcreteBaseAudioContext<P, H>,
    /// the size of the buffer in sample-frames
    length: usize,
    /// the right to render the audio graph, can only be claimed once
    renderer: Option<Renderer<W, C>>,
    /// incremental rendering state
    incremental: Option<IncrementalRender>,
    /// finished incremental render
    rendered: Option<AudioBuffer>,
    /// number of frames rendered so far
    rendered_frames: usize,
}

/// An offline context, as contracts speak of it.
pub struct OfflineView<P, H, W, C> {
    pub base: BaseView<P, H>,
    pub length: usize,
    pub renderer: Option<RendererView<W, C>>,
    pub incremental: Option<IncrementalView>,
    pub rendered: Option<AudioBufferView>,
    pub rendered_frames: usize,
}

impl<P, H, W, C> View for OfflineAudioContext<P, H, W, C> {
    type V = OfflineView<P, H, W, C>;

    closed spec fn view(&self) -> OfflineView<P, H, W, C> {
        OfflineView {
            base: self.base@,
            length: self.length,
            renderer: match self.renderer {
                Some(renderer) => Some(
                    RendererView {
                        suspend_promises: renderer.suspend_promises@,
                        suspend_callbacks: renderer.suspend_callbacks@,
                    },
                ),
                None => None,
            },
            incremental: match self.incremental {
                Some(inc) => Some(
                    IncrementalView { buffer: channel_views(inc.buffer@), quantum: inc.quantum },
                ),
                None => None,
            },
            rendered: match self.rendered {
                Some(buffer) => Some(buffer@),
                None => None,
            },
            rendered_frames: self.rendered_frames,
        }
    }
}

impl<P, H, W, C> OfflineView<P, H, W, C> {
    /// Number of output channels.
    pub open spec fn channels(self) -> nat {
        self.base.max_channel_count as nat
    }

    /// Number of render quanta that fill the buffer.
    pub open spec fn num_quanta(self) -> int {
        quanta_for_spec(self.length as int)
    }

    /// What holds of every offline context: it has a channel and a frame to render, suspensions are
    /// sorted, the renderer is claimed at most once, and the frame count agrees with what was
    /// rendered.
    pub open spec fn inv(self) -> bool {
        &&& self.length > 0
        &&& 1 <= self.channels()
        &&& self.rendered_frames <= self.length
        &&& self.base.connections.no_duplicates()
        &&& match self.renderer {
            Some(renderer) => rising(renderer.suspend_promises) && rising(
                renderer.suspend_callbacks,
            ) && self.incremental is None && self.rendered is None && self.rendered_frames == 0,
            None => true,
        }
        &&& match self.incremental {
            Some(inc) => inc.quantum < self.num_quanta() && has_shape(
                inc.buffer,
                self.channels(),
                inc.quantum * RENDER_QUANTUM_SIZE,
            ) && self.rendered is None && self.rendered_frames == inc.quantum * RENDER_QUANTUM_SIZE,
            None => true,
        }
        &&& match self.rendered {
            Some(buffer) => has_shape(buffer.channels, self.channels(), self.length as int)
                && self.rendered_frames == self.length,
            None => true,
        }
    }

    /// Whether the renderer was claimed to render the buffer in one pass.
    pub open spec fn in_one_pass(self) -> bool {
        self.renderer is None && self.incremental is None && self.rendered is None
    }

    /// Whether an incremental render can go on (or start).
    pub open spec fn can_render(self) -> bool {
        self.incremental is Some || self.renderer is Some
    }

    /// Number of render quanta produced incrementally so far.
    pub open spec fn quantum(self) -> int {
        match self.incremental {
            Some(inc) => inc.quantum as int,
            None => 0,
        }
    }

    /// Number of render quanta to render to reach a frame.
    pub open spec fn missing_quanta(self, upto_frame: usize) -> int {
        let target = target_quantum(upto_frame as int, self.length as int);
        if target > self.quantum() {
            target - self.quantum()
        } else {
            0
        }
    }

    /// The renderer is claimed, and the context runs.
    pub open spec fn started(self) -> Self {
        OfflineView {
            renderer: None,
            base: self.base.with_state(AudioContextState::Running),
            ..self
        }
    }

    /// A segment of an incremental render is about to be rendered.
    pub open spec fn segment_begun(self) -> Self {
        match self.incremental {
            Some(_) => OfflineView {
                base: self.base.with_state(AudioContextState::Running),
                ..self
            },
            None => OfflineView {
                incremental: Some(
                    IncrementalView { buffer: no_samples(self.channels()), quantum: 0 },
                ),
                ..self.started()
            },
        }
    }

    /// The time progression has stopped at the start of a render quantum. The frames before it have
    /// been rendered by then; a count that is further on stays.
    pub open spec fn suspended_at(self, quantum: usize) -> Self {
        let frames = frames_in(quantum as int, self.length as int) as usize;
        OfflineView {
            base: self.base.with_state(AudioContextState::Suspended),
            rendered_frames: if frames > self.rendered_frames {
                frames
            } else {
                self.rendered_frames
            },
            ..self
        }
    }

    /// The time progression goes on.
    pub open spec fn running(self) -> Self {
        OfflineView { base: self.base.with_state(AudioContextState::Running), ..self }
    }

    /// All frames have been rendered, the context is closed, and the end of the rendering is
    /// announced.
    pub open spec fn completed(self, result: AudioBufferView) -> Self {
        let closed = self.base.with_state(AudioContextState::Closed);
        OfflineView {
            base: BaseView { events: closed.events.with_event(EventView::Complete(result)), ..closed },
            rendered_frames: self.length,
            ..self
        }
    }

    /// A segment of `quanta` render quanta has been rendered. Short of the end the context is
    /// parked, and reports to be suspended.
    pub open spec fn segment_finished(self, quanta: int, samples: Seq<Seq<Float32>>) -> Self
        recommends
            self.incremental is Some,
    {
        let quantum = self.quantum() + quanta;
        let buffer = appended(self.incremental->0.buffer, samples);
        let frames = frames_in(quantum, self.length as int);
        if quantum >= self.num_quanta() {
            // the last quantum may overshoot the length
            let result = AudioBufferView {
                channels: truncated(buffer, self.length as int),
                sample_rate: self.base.sample_rate,
            };
            OfflineView {
                incremental: None,
                rendered: Some(result),
                rendered_frames: frames as usize,
                ..self
            }.completed(result)
        } else {
            OfflineView {
                incremental: Some(IncrementalView { buffer, quantum: quantum as usize }),
                rendered_frames: frames as usize,
                base: self.base.with_state(AudioContextState::Suspended),
                ..self
            }
        }
    }

    /// The finished render has been taken.
    pub open spec fn taken(self) -> Self {
        OfflineView { rendered: None, ..self }
    }

    /// A promise is scheduled at a render quantum, `pos` places into the list.
    pub open spec fn promise_scheduled(self, pos: int, quantum: usize, promise: W) -> Self {
        let renderer = self.renderer->0;
        OfflineView {
            renderer: Some(
                RendererView {
                    suspend_promises: renderer.suspend_promises.insert(pos, (quantum, promise)),
                    ..renderer
                },
            ),
            ..self
        }
    }

    /// A callback is scheduled at a render quantum, `pos` places into the list.
    pub open spec fn callback_scheduled(self, pos: int, quantum: usize, callback: C) -> Self {
        let renderer = self.renderer->0;
        OfflineView {
            renderer: Some(
                RendererView {
                    suspend_callbacks: renderer.suspend_callbacks.insert(pos, (quantum, callback)),
                    ..renderer
                },
            ),
            ..self
        }
    }

    /// What is scheduled via `suspend`, until rendering starts.
    pub open spec fn promises(self) -> Option<Seq<(usize, W)>> {
        match self.renderer {
            Some(renderer) => Some(renderer.suspend_promises),
            None => None,
        }
    }

    /// What is scheduled via `suspend_sync`, until rendering starts.
    pub open spec fn callbacks(self) -> Option<Seq<(usize, C)>> {
        match self.renderer {
            Some(renderer) => Some(renderer.suspend_callbacks),
            None => None,
        }
    }

    /// The context, rendered up to a frame (and at least to where it was), given the samples that
    /// were missing. Once nothing can be rendered any more, it stays as it is.
    pub open spec fn rendered_upto(self, upto_frame: usize, samples: Seq<Seq<Float32>>) -> Self {
        if self.can_render() {
            self.segment_begun().segment_finished(self.missing_quanta(upto_frame), samples)
        } else {
            self
        }
    }
}

/// One render quantum of a rendering in one pass, with a render engine `E`.
pub struct PassStep<P, H, W, C, E> {
    /// the context before
    pub before: OfflineView<P, H, W, C>,
    /// the context as a callback has left it, if one was due
    pub left: OfflineView<P, H, W, C>,
    /// the context when the quantum is rendered
    pub resumed: OfflineView<P, H, W, C>,
    /// the render engine that renders the quantum
    pub engine: E,
    /// the samples of the quantum
    pub samples: Seq<Seq<Float32>>,
    /// the context when the quantum has been rendered
    pub after: OfflineView<P, H, W, C>,
    /// the render engine then
    pub engine_after: E,
}

/// The context after a part of a rendering in one pass that starts with `v`.
pub open spec fn after_steps<P, H, W, C, E>(
    v: OfflineView<P, H, W, C>,
    steps: Seq<PassStep<P, H, W, C, E>>,
) -> OfflineView<P, H, W, C> {
    if steps.len() == 0 {
        v
    } else {
        steps.last().after
    }
}

/// The render engine after a part of a rendering in one pass that starts with `engine`.
pub open spec fn engine_after_steps<P, H, W, C, E>(
    engine: E,
    steps: Seq<PassStep<P, H, W, C, E>>,
) -> E {
    if steps.len() == 0 {
        engine
    } else {
        steps.last().engine_after
    }
}

/// What is rendered next: the context as it was, or, where a callback was due, as the callback has
/// left it, with the time progression going on.
pub open spec fn goes_on<P, H, W, C, E>(callback: Option<C>, step: PassStep<P, H, W, C, E>) -> bool {
    step.resumed == (match callback {
        Some(_) => step.left.running(),
        None => step.before,
    })
}

/// The callback that is due at the `i`-th render quantum of a rendering in one pass.
pub open spec fn callback_at<C>(callbacks: Seq<(usize, C)>, i: int) -> Option<C> {
    due(left_after(callbacks, i as nat), i as usize)
}

/// A rendering in one pass that starts with `v` and `engine`, quantum by quantum: each goes on where
/// the one before has ended.
pub open spec fn is_pass<P, H, W, C, E>(
    v: OfflineView<P, H, W, C>,
    callbacks: Seq<(usize, C)>,
    engine: E,
    steps: Seq<PassStep<P, H, W, C, E>>,
) -> bool
    decreases steps.len(),
{
    steps.len() > 0 ==> {
        &&& is_pass(v, callbacks, engine, steps.drop_last())
        &&& steps.last().before == after_steps(v, steps.drop_last())
        &&& steps.last().engine == engine_after_steps(engine, steps.drop_last())
        &&& goes_on(callback_at(callbacks, steps.len() - 1), steps.last())
    }
}

/// Whether a rendering in one pass has an `i`-th render quantum.
pub open spec fn is_step<P, H, W, C, E>(steps: Seq<PassStep<P, H, W, C, E>>, i: int) -> bool {
    0 <= i < steps.len()
}

/// Whether `run` can run a callback on a context, which is as given when the callback starts.
pub open spec fn ran<P, H, W, C, G: Fn(&mut OfflineAudioContext<P, H, W, C>, C)>(
    run: G,
    context: &mut OfflineAudioContext<P, H, W, C>,
    callback: C,
    entered: OfflineView<P, H, W, C>,
) -> bool {
    call_ensures(run, (context, callback), ()) && (*context)@ == entered
}

/// Whether `render` can render the quantum of a step on a context.
pub open spec fn rendered_by<
    P,
    H,
    W,
    C,
    E,
    R: Fn(&mut OfflineAudioContext<P, H, W, C>, E) -> (Vec<Vec<Float32>>, E),
>(
    render: R,
    context: &mut OfflineAudioContext<P, H, W, C>,
    step: PassStep<P, H, W, C, E>,
) -> bool {
    &&& (*context)@ == step.resumed
    &&& exists|rendered: (Vec<Vec<Float32>>, E)|
        {
            &&& #[trigger] call_ensures(render, (context, step.engine), rendered)
            &&& channel_views(rendered.0@) == step.samples
            &&& rendered.1 == step.engine_after
        }
}

/// All samples of a rendering in one pass.
pub open spec fn pass_samples<P, H, W, C, E>(
    steps: Seq<PassStep<P, H, W, C, E>>,
    channels: nat,
) -> Seq<Seq<Float32>>
    decreases steps.len(),
{
    if steps.len() == 0 {
        no_samples(channels)
    } else {
        appended(pass_samples(steps.drop_last(), channels), steps.last().samples)
    }
}

/// The buffer that a rendering of `v` in one pass gives: all samples, up to the length of the buffer.
pub open spec fn pass_buffer<P, H, W, C, E>(
    v: OfflineView<P, H, W, C>,
    steps: Seq<PassStep<P, H, W, C, E>>,
) -> AudioBufferView {
    AudioBufferView {
        channels: truncated(pass_samples(steps, v.channels()), v.length as int),
        sample_rate: v.base.sample_rate,
    }
}

/// A context that has just been created.
pub open spec fn new_context<P, H, W, C>(base: BaseView<P, H>, length: usize) -> OfflineView<
    P,
    H,
    W,
    C,
> {
    OfflineView {
        base,
        length,
        renderer: Some(
            RendererView { suspend_promises: Seq::empty(), suspend_callbacks: Seq::empty() },
        ),
        incremental: None,
        rendered: None,
        rendered_frames: 0,
    }
}

/// Continues the sample data of each channel.
fn append_samples(buffer: &mut Vec<Vec<Float32>>, samples: Vec<Vec<Float32>>)
    requires
        old(buffer)@.len() == samples@.len(),
    ensures
        channel_views(final(buffer)@) == appended(
            channel_views(old(buffer)@),
            channel_views(samples@),
        ),
{
    let ghost before = buffer@;
    let mut rest = samples;
    let mut c: usize = buffer.len();
    while c > 0
        invariant
            c == rest@.len(),
            c <= before.len(),
            buffer@.len() == before.len(),
            before.len() == samples@.len(),
            rest@ == samples@.take(c as int),
            forall|i: int| 0 <= i < c ==> buffer@[i] == before[i],
            forall|i: int|
                c <= i < before.len() ==> (#[trigger] buffer@[i])@ == before[i]@ + samples@[i]@,
        decreases c,
    {
        c -= 1;
        match rest.pop() {
            Some(mut channel) => {
                buffer[c].append(&mut channel);
            },
            None => {},
        }
        assert(rest@ =~= samples@.take(c as int));
    }
    assert(channel_views(buffer@) =~= appended(channel_views(before), channel_views(samples@)));
}

/// Ends each channel after `length` frames at the latest.
fn truncate_samples(buffer: &mut Vec<Vec<Float32>>, length: usize)
    ensures
        channel_views(final(buffer)@) == truncated(channel_views(old(buffer)@), length as int),
{
    let ghost before = buffer@;
    let mut c: usize = 0;
    while c < buffer.len()
        invariant
            c <= buffer@.len(),
            buffer@.len() == before.len(),
            forall|i: int| c <= i < before.len() ==> buffer@[i] == before[i],
            forall|i: int|
                0 <= i < c ==> (#[trigger] buffer@[i])@ == (if before[i]@.len() <= length {
                    before[i]@
                } else {
                    before[i]@.take(length as int)
                }),
        decreases buffer@.len() - c,
    {
        buffer[c].truncate(length);
        c += 1;
    }
    assert(channel_views(buffer@) =~= truncated(channel_views(before), length as int));
}

/// Sample data of `channels` channels without samples.
fn empty_channels(channels: usize) -> (r: Vec<Vec<Float32>>)
    ensures
        channel_views(r@) == no_samples(channels as nat),
{
    let mut r: Vec<Vec<Float32>> = Vec::new();
    while r.len() < channels
        invariant
            r@.len() <= channels,
            forall|i: int| 0 <= i < r@.len() ==> (#[trigger] r@[i])@ == Seq::<Float32>::empty(),
        decreases channels - r@.len(),
    {
        r.push(Vec::new());
    }
    assert(channel_views(r@) =~= no_samples(channels as nat));
    r
}

impl<P, H, W, C> OfflineAudioContext<P, H, W, C> {
    /// Suspensions are sorted, the renderer is claimed at most once, and the frame count agrees
    /// with what was rendered.
    pub open spec fn wf(self) -> bool {
        self@.inv()
    }

    /// Creates an offline context.
    ///
    /// # Arguments
    ///
    /// * `number_of_channels` - number of output channels to render
    /// * `length` - length of the rendering audio buffer
    /// * `sample_rate` - output sample rate
    /// * `graph` - creates the audio graph, which sends back the ids of decommissioned nodes
    pub fn new<G: FnOnce(llq::Producer<u64>) -> P>(
        number_of_channels: usize,
        length: usize,
        sample_rate: Float32,
        graph: G,
    ) -> (r: Self)
        requires
            1 <= number_of_channels <= MAX_CHANNELS,
            length >= 1,
            forall|producer: llq::Producer<u64>| #[trigger] call_requires(graph, (producer,)),
        ensures
            r.wf(),
            same_settings(
                r@.base,
                blank_context(
                    sample_rate,
                    number_of_channels,
                    AudioContextState::Suspended,
                    Seq::empty(),
                    EventLoopView {
                        pending: Seq::empty(),
                        on_state_change: None::<H>,
                        on_complete: None::<H>,
                    },
                    true,
                    r@.base.ids,
                ),
            ),
            exists|
                halves: (llq::Producer<u64>, llq::Consumer<u64>),
                started: P,
                destination: AudioNodeId,
                listener: AudioNodeId,
                params: Seq<AudioNodeId>,
            |
                {
                    &&& halves_of_new_queue(halves)
                    &&& #[trigger] call_ensures(graph, (halves.0,), started)
                    &&& params.len() == 9
                    &&& r@ == new_context::<P, H, W, C>(
                        #[trigger] initial_context(
                            blank_context(
                                sample_rate,
                                number_of_channels,
                                AudioContextState::Suspended,
                                outgoing_of(seq![MessageView::Startup { graph: started }], false),
                                EventLoopView {
                                    pending: Seq::empty(),
                                    on_state_change: None::<H>,
                                    on_complete: None::<H>,
                                },
                                true,
                                r@.base.ids,
                            ),
                            destination,
                            listener,
                            params,
                        ),
                        length,
                    )
                    &&& ids_taken(
                        IdsView { next_id: 0, consumer: Some(halves.1) },
                        seq![destination, listener] + params,
                        r@.base.ids,
                    )
                    &&& r@.base.ids.next_id == LISTENER_PARAM_IDS_END ==> hardcoded_ids(
                        destination,
                        listener,
                        params,
                    )
                },
    {
        let (node_id_producer, node_id_consumer) = id_queue();
        let ghost halves = (node_id_producer, node_id_consumer);
        let started = graph(node_id_producer);
        let message = ControlMessage::Startup { graph: started };
        let mut render_channel: Vec<Outgoing<P>> = Vec::new();
        render_channel.push(Outgoing { message, even_after_stall: false });
        assert(outgoing_views(render_channel@) =~= outgoing_of(
            seq![MessageView::Startup { graph: started }],
            false,
        ));
        let base = ConcreteBaseAudioContext::new(
            sample_rate,
            number_of_channels,
            AudioContextState::Suspended,
            render_channel,
            EventLoop::new(),
            true,
            node_id_consumer,
        );
        assert(call_ensures(graph, (halves.0,), started));
        OfflineAudioContext {
            base,
            length,
            renderer: Some(
                Renderer {
                    suspend_promises: SuspendSchedule::new(),
                    suspend_callbacks: SuspendSchedule::new(),
                },
            ),
            incremental: None,
            rendered: None,
            rendered_frames: 0,
        }
    }

    /// The underlying `BaseAudioContext`.
    pub fn base(&self) -> (r: &ConcreteBaseAudioContext<P, H>)
        ensures
            r@ == self@.base,
    {
        &self.base
    }

    /// The underlying `BaseAudioContext`, to work on the audio graph.
    pub fn base_mut(&mut self) -> (r: &mut ConcreteBaseAudioContext<P, H>)
        ensures
            r@ == old(self)@.base,
            final(self)@ == (OfflineView { base: final(r)@, ..old(self)@ }),
    {
        &mut self.base
    }

    /// Starts rendering up to `upto_frame`: claims the renderer on the first call, and tells how
    /// many render quanta have to be rendered before [`Self::finish_segment`] can be called.
    ///
    /// It does nothing once the renderer has been claimed by another way of rendering, or the
    /// render has finished.
    pub fn begin_segment(&mut self, upto_frame: usize) -> (r: Option<usize>)
        requires
            old(self).wf(),
        ensures
            final(self).wf(),
            match r {
                Some(quanta) => old(self)@.can_render() && quanta == old(self)@.missing_quanta(
                    upto_frame,
                ) && final(self)@ == old(self)@.segment_begun(),
                None => !old(self)@.can_render() && final(self)@ == old(self)@,
            },
    {
        let quantum: usize = match &self.incremental {
            Some(inc) => inc.quantum,
            None => {
                // first call: claim the renderer
                if self.renderer.is_none() {
                    return None;
                }
                0
            },
        };
        if self.incremental.is_none() {
            self.renderer = None;
            self.incremental = Some(
                IncrementalRender { buffer: empty_channels(self.base.max_channel_count()), quantum: 0 },
            );
        }
        // a segment is being rendered, the previous one may have parked the context
        self.base.set_state(AudioContextState::Running);

        let target: usize = if upto_frame >= self.length {
            quanta_for(self.length)
        } else {
            quanta_for(upto_frame)
        };
        Some(if target > quantum {
            target - quantum
        } else {
            0
        })
    }

    /// Takes in the samples of `quanta` render quanta, and returns the total number of rendered
    /// frames.
    ///
    /// At the end of the buffer the result is stored, and the context is closed. Short of that it
    /// is parked: it must report "suspended" then.
    pub fn finish_segment(&mut self, quanta: usize, samples: Vec<Vec<Float32>>) -> (r: usize)
        requires
            old(self).wf(),
            old(self)@.incremental is Some,
            old(self)@.quantum() + quanta <= old(self)@.num_quanta(),
            has_shape(
                channel_views(samples@),
                old(self)@.channels(),
                quanta * RENDER_QUANTUM_SIZE,
            ),
        ensures
            final(self).wf(),
            final(self)@ == old(self)@.segment_finished(quanta as int, channel_views(samples@)),
            r == final(self)@.rendered_frames,
    {
        let mut frames: usize = self.rendered_frames;
        match self.incremental.take() {
            Some(inc) => {
                let mut buffer = inc.buffer;
                append_samples(&mut buffer, samples);
                let quantum: usize = inc.quantum + quanta;
                if quantum >= quanta_for(self.length) {
                    frames = self.length;
                    self.rendered_frames = frames;
                    // the last quantum may overshoot the length
                    truncate_samples(&mut buffer, self.length);
                    let result = AudioBuffer::from(buffer, self.base.sample_rate());
                    self.rendered = Some(result.duplicate());
                    self.base.set_state(AudioContextState::Closed);
                    self.base.send_event(EventDispatch::Complete(result));
                } else {
                    frames = quantum * RENDER_QUANTUM_SIZE;
                    self.rendered_frames = frames;
                    self.incremental = Some(IncrementalRender { buffer, quantum });
                    self.base.set_state(AudioContextState::Suspended);
                }
            },
            None => {},
        }
        frames
    }

    /// Renders up to `upto_frame` (exclusive; rounded up to whole render quanta; >= length renders
    /// to the end). May be called repeatedly to continue. Returns the total number of rendered
    /// frames. When the end is reached the result is stored and can be taken once through
    /// [`Self::take_rendered_sync`].
    ///
    /// `render` renders the given number of render quanta, and is not called if there are none to
    /// render.
    ///
    /// Calling after the render has finished (result stored or already taken) or after
    /// `start_rendering*` has claimed the renderer is a no-op that returns the current frame count.
    pub fn render_upto_sync<R: FnOnce(usize) -> Vec<Vec<Float32>>>(
        &mut self,
        upto_frame: usize,
        render: R,
    ) -> (r: usize)
        requires
            old(self).wf(),
            old(self)@.can_render() && old(self)@.missing_quanta(upto_frame) > 0 ==> {
                let quanta = old(self)@.missing_quanta(upto_frame) as usize;
                &&& call_requires(render, (quanta,))
                &&& forall|samples: Vec<Vec<Float32>>|
                    #[trigger] call_ensures(render, (quanta,), samples) ==> has_shape(
                        channel_views(samples@),
                        old(self)@.channels(),
                        quanta * RENDER_QUANTUM_SIZE,
                    )
            },
        ensures
            final(self).wf(),
            r == final(self)@.rendered_frames,
            if old(self)@.can_render() && old(self)@.missing_quanta(upto_frame) > 0 {
                exists|samples: Vec<Vec<Float32>>|
                    #[trigger] call_ensures(
                        render,
                        (old(self)@.missing_quanta(upto_frame) as usize,),
                        samples,
                    ) && final(self)@ == old(self)@.rendered_upto(
                        upto_frame,
                        channel_views(samples@),
                    )
            } else {
                final(self)@ == old(self)@.rendered_upto(
                    upto_frame,
                    no_samples(old(self)@.channels()),
                )
            },
    {
        match self.begin_segment(upto_frame) {
            None => self.rendered_frames,
            Some(quanta) => {
                let samples = if quanta > 0 {
                    render(quanta)
                } else {
                    empty_channels(self.base.max_channel_count())
                };
                self.finish_segment(quanta, samples)
            },
        }
    }

    /// Number of frames rendered so far (currentTime = frames / sampleRate).
    pub fn rendered_frames_sync(&self) -> (r: usize)
        ensures
            r == self@.rendered_frames,
    {
        self.rendered_frames
    }

    /// Takes the finished result after rendering reached the end (None if the render is unfinished
    /// or the result was already taken).
    pub fn take_rendered_sync(&mut self) -> (r: Option<AudioBuffer>)
        ensures
            final(self)@ == old(self)@.taken(),
            old(self).wf() ==> final(self).wf(),
            match r {
                Some(buffer) => old(self)@.rendered == Some(buffer@),
                None => old(self)@.rendered is None,
            },
    {
        self.rendered.take()
    }

    /// Tells whether rendering can start: it can only do so once.
    pub fn can_start_rendering(&self) -> (r: bool)
        ensures
            r == (self@.renderer is Some),
    {
        self.renderer.is_some()
    }

    /// Claims the renderer for [`Self::start_rendering_sync`].
    ///
    /// It returns the callbacks to run while the buffer is rendered, each at its render quantum,
    /// between [`Self::enter_suspension`] and [`Self::leave_suspension`]. Suspensions scheduled via [`Self::suspend`] are ignored.
    /// [`Self::finish_rendering`] takes the rendered buffer.
    ///
    /// Rendering can only start once (see [`Self::can_start_rendering`]): anything else is an
    /// `InvalidStateError`.
    pub fn claim_renderer_sync(&mut self) -> (r: SuspendSchedule<C>)
        requires
            old(self).wf(),
            old(self)@.renderer is Some,
        ensures
            final(self).wf(),
            final(self)@ == old(self)@.started(),
            r.wf(),
            Some(r@) == old(self)@.callbacks(),
    {
        let renderer = self.renderer.take().unwrap();
        self.base.set_state(AudioContextState::Running);
        renderer.suspend_callbacks
    }

    /// Renders one render quantum, after the callback that is due there has run while the time
    /// progression was suspended.
    fn render_one<
        E,
        G: Fn(&mut Self, C),
        R: Fn(&mut Self, E) -> (Vec<Vec<Float32>>, E),
    >(&mut self, quantum: usize, callback: Option<C>, engine: E, run: &G, render: &R) -> (r: (
        Vec<Vec<Float32>>,
        E,
        Ghost<PassStep<P, H, W, C, E>>,
    ))
        requires
            forall|context: &mut Self, c: C| #[trigger] call_requires(*run, (context, c)),
            forall|context: &mut Self, e: E| #[trigger] call_requires(*render, (context, e)),
        ensures
            ({
                let step = r.2@;
                &&& step.before == old(self)@
                &&& step.engine == engine
                &&& goes_on(callback, step)
                &&& step.samples == channel_views(r.0@)
                &&& step.after == final(self)@
                &&& step.engine_after == r.1
                &&& callback matches Some(c) ==> exists|context: &mut Self|
                    #[trigger] ran(*run, context, c, step.before.suspended_at(quantum))
                        && (*final(context))@ == step.left
                &&& exists|context: &mut Self| #[trigger]
                    rendered_by(*render, context, step) && (*final(context))@ == step.after
                &&& exists|context: &mut Self, e: E, rendered: (Vec<Vec<Float32>>, E)| #[trigger]
                    call_ensures(*render, (context, e), rendered) && rendered.0 == r.0
            }),
    {
        let ghost mut left = self@;
        if let Some(c) = callback {
            self.enter_suspension(quantum);
            let ghost entered = self@;
            run(self, c);
            proof {
                left = self@;
                let context = choose|context: &mut Self|
                    {
                        &&& #[trigger] call_ensures(*run, (context, c), ())
                        &&& (*context)@ == entered
                        &&& (*final(context))@ == left
                    };
                assert(ran(*run, context, c, entered));
            }
            self.leave_suspension();
        }
        let ghost resumed = self@;
        let (samples, engine_after) = render(self, engine);
        let ghost step = PassStep {
            before: old(self)@,
            left,
            resumed,
            engine,
            samples: channel_views(samples@),
            after: self@,
            engine_after,
        };
        proof {
            let context = choose|context: &mut Self|
                {
                    &&& #[trigger] call_ensures(
                        *render,
                        (context, engine),
                        (samples, engine_after),
                    )
                    &&& (*context)@ == resumed
                    &&& (*final(context))@ == step.after
                };
            assert(call_ensures(*render, (context, engine), (samples, engine_after)));
            assert(rendered_by(*render, context, step));
        }
        (samples, engine_after, Ghost(step))
    }

    /// Given the current connections and scheduled changes, starts rendering audio.
    ///
    /// This function returns the rendered buffer synchronously, together with the render engine. It
    /// will only adhere to scheduled suspensions via [`Self::suspend_sync`], and ignore those
    /// provided via [`Self::suspend`].
    ///
    /// `run` runs a callback. `render` renders one render quantum with the render engine.
    ///
    /// Rendering can only start once (see [`Self::can_start_rendering`]): anything else is an
    /// `InvalidStateError`.
    pub fn start_rendering_sync<
        E,
        G: Fn(&mut Self, C),
        R: Fn(&mut Self, E) -> (Vec<Vec<Float32>>, E),
    >(&mut self, engine: E, run: G, render: R) -> (r: (AudioBuffer, E))
        requires
            old(self).wf(),
            old(self)@.renderer is Some,
            forall|context: &mut Self, c: C| #[trigger] call_requires(run, (context, c)),
            forall|context: &mut Self, e: E| #[trigger] call_requires(render, (context, e)),
            forall|context: &mut Self, e: E, rendered: (Vec<Vec<Float32>>, E)| #[trigger]
                call_ensures(render, (context, e), rendered) ==> has_shape(
                    channel_views(rendered.0@),
                    old(self)@.channels(),
                    RENDER_QUANTUM_SIZE as int,
                ),
        ensures
            exists|steps: Seq<PassStep<P, H, W, C, E>>|
                {
                    &&& #[trigger] is_pass(
                        old(self)@.started(),
                        old(self)@.callbacks()->0,
                        engine,
                        steps,
                    )
                    &&& steps.len() == old(self)@.num_quanta()
                    &&& forall|i: int|
                        #[trigger] is_step(steps, i) ==> {
                            &&& callback_at(old(self)@.callbacks()->0, i) is Some ==> exists|
                                context: &mut Self,
                            | #[trigger]
                                ran(
                                    run,
                                    context,
                                    callback_at(old(self)@.callbacks()->0, i)->0,
                                    steps[i].before.suspended_at(i as usize),
                                ) && (*final(context))@ == steps[i].left
                            &&& exists|context: &mut Self| #[trigger]
                                rendered_by(render, context, steps[i]) && (*final(context))@
                                    == steps[i].after
                        }
                    &&& r.0@ == pass_buffer(old(self)@, steps)
                    &&& r.1 == engine_after_steps(engine, steps)
                    &&& final(self)@ == after_steps(old(self)@.started(), steps).completed(r.0@)
                    &&& after_steps(old(self)@.started(), steps).inv() && after_steps(
                        old(self)@.started(),
                        steps,
                    ).in_one_pass() ==> final(self).wf()
                },
    {
        let length: usize = self.length;
        let sample_rate = self.base.sample_rate();
        let channels: usize = self.base.max_channel_count();
        let quanta: usize = quanta_for(length);
        let mut waiting = self.claim_renderer_sync();
        let mut buffer = empty_channels(channels);
        assert(buffer@.len() == channel_views(buffer@).len());
        let mut end = engine;
        let ghost mut steps: Seq<PassStep<P, H, W, C, E>> = Seq::empty();
        let mut quantum: usize = 0;
        while quantum < quanta
            invariant
                quantum <= quanta,
                quantum == steps.len(),
                channels == old(self)@.channels(),
                waiting.wf(),
                waiting@ == left_after(old(self)@.callbacks()->0, quantum as nat),
                forall|context: &mut Self, c: C| #[trigger] call_requires(run, (context, c)),
                forall|context: &mut Self, e: E| #[trigger] call_requires(render, (context, e)),
                forall|context: &mut Self, e: E, rendered: (Vec<Vec<Float32>>, E)| #[trigger]
                    call_ensures(render, (context, e), rendered) ==> has_shape(
                        channel_views(rendered.0@),
                        channels as nat,
                        RENDER_QUANTUM_SIZE as int,
                    ),
                is_pass(old(self)@.started(), old(self)@.callbacks()->0, engine, steps),
                self@ == after_steps(old(self)@.started(), steps),
                end == engine_after_steps(engine, steps),
                channel_views(buffer@) == pass_samples(steps, channels as nat),
                buffer@.len() == channels,
                forall|i: int|
                    #[trigger] is_step(steps, i) ==> {
                        &&& callback_at(old(self)@.callbacks()->0, i) is Some ==> exists|
                            context: &mut Self,
                        | #[trigger]
                            ran(
                                run,
                                context,
                                callback_at(old(self)@.callbacks()->0, i)->0,
                                steps[i].before.suspended_at(i as usize),
                            ) && (*final(context))@ == steps[i].left
                        &&& exists|context: &mut Self| #[trigger]
                            rendered_by(render, context, steps[i]) && (*final(context))@ == steps[i].after
                    },
            decreases quanta - quantum,
        {
            let ghost earlier = steps;
            let callback = waiting.take_due(quantum);
            let (samples, back, Ghost(step)) = self.render_one(
                quantum,
                callback,
                end,
                &run,
                &render,
            );
            end = back;
            assert(channel_views(samples@).len() == channels);
            append_samples(&mut buffer, samples);
            assert(buffer@.len() == channel_views(buffer@).len());
            proof {
                steps = steps.push(step);
                assert(steps.drop_last() =~= earlier);
                assert(steps.last() == step);
                assert forall|i: int|
                    #[trigger] is_step(steps, i) implies {
                        &&& callback_at(old(self)@.callbacks()->0, i) is Some ==> exists|
                            context: &mut Self,
                        | #[trigger]
                            ran(
                                run,
                                context,
                                callback_at(old(self)@.callbacks()->0, i)->0,
                                steps[i].before.suspended_at(i as usize),
                            ) && (*final(context))@ == steps[i].left
                        &&& exists|context: &mut Self| #[trigger]
                            rendered_by(render, context, steps[i]) && (*final(context))@ == steps[i].after
                    } by {
                    if i < quantum {
                        assert(is_step(earlier, i));
                        assert(steps[i] == earlier[i]);
                    } else {
                        assert(steps[i] == step);
                    }
                }
            }
            quantum += 1;
        }
        truncate_samples(&mut buffer, length);
        let result = self.finish_rendering(AudioBuffer::from(buffer, sample_rate));
        assert(result@ == pass_buffer(old(self)@, steps));
        (result, end)
    }

    /// Given the current connections and scheduled changes, starts rendering audio.
    ///
    /// It returns the promises to resolve while the buffer is rendered, each at its render quantum,
    /// where rendering has to wait for [`Self::resume`]. Suspensions scheduled via
    /// [`Self::suspend_sync`] are ignored. [`Self::finish_rendering`] takes the rendered buffer.
    ///
    /// Rendering can only start once (see [`Self::can_start_rendering`]): anything else is an
    /// `InvalidStateError`.
    pub fn start_rendering(&mut self) -> (r: SuspendSchedule<W>)
        requires
            old(self).wf(),
            old(self)@.renderer is Some,
        ensures
            final(self).wf(),
            final(self)@ == old(self)@.started(),
            r.wf(),
            Some(r@) == old(self)@.promises(),
    {
        let renderer = self.renderer.take().unwrap();
        self.base.set_state(AudioContextState::Running);
        renderer.suspend_promises
    }

    /// Closes the context after the buffer has been rendered, announces that, and hands the
    /// buffer out.
    pub fn finish_rendering(&mut self, result: AudioBuffer) -> (r: AudioBuffer)
        ensures
            final(self)@ == old(self)@.completed(result@),
            old(self).wf() && old(self)@.in_one_pass() ==> final(self).wf(),
            r@ == result@,
    {
        self.rendered_frames = self.length;
        self.base.set_state(AudioContextState::Closed);
        self.base.send_event(EventDispatch::Complete(result.duplicate()));
        result
    }

    /// The length of the rendering audio buffer.
    pub fn length(&self) -> (r: usize)
        ensures
            r == self@.length,
    {
        self.length
    }

    /// Tells whether a render quantum starts within the rendering, and after the current time.
    fn check_quantum(&self, quantum: usize) -> (r: Result<(), SuspendError>)
        ensures
            r == (if quantum == 0 {
                Err::<(), _>(SuspendError::NotAfterCurrentTime)
            } else if quantum * RENDER_QUANTUM_SIZE >= self@.length {
                Err(SuspendError::NotBeforeEnd)
            } else {
                Ok(())
            }),
    {
        if quantum == 0 {
            return Err(SuspendError::NotAfterCurrentTime);
        }
        if quantum >= quanta_for(self.length) {
            return Err(SuspendError::NotBeforeEnd);
        }
        Ok(())
    }

    /// Tells whether [`Self::suspend`] can schedule a suspension at a render quantum.
    pub fn check_suspend(&self, quantum: usize) -> (r: Result<(), SuspendError>)
        requires
            self.wf(),
        ensures
            r == suspend_verdict(self@.promises(), self@.length, quantum),
    {
        match self.check_quantum(quantum) {
            Ok(()) => {},
            Err(e) => {
                return Err(e);
            },
        }
        match &self.renderer {
            None => Err(SuspendError::RenderingStarted),
            Some(renderer) => if renderer.suspend_promises.contains(quantum) {
                Err(SuspendError::AlreadyScheduled)
            } else {
                Ok(())
            },
        }
    }

    /// Tells whether [`Self::suspend_sync`] can schedule a suspension at a render quantum.
    pub fn check_suspend_sync(&self, quantum: usize) -> (r: Result<(), SuspendError>)
        requires
            self.wf(),
        ensures
            r == suspend_verdict(self@.callbacks(), self@.length, quantum),
    {
        match self.check_quantum(quantum) {
            Ok(()) => {},
            Err(e) => {
                return Err(e);
            },
        }
        match &self.renderer {
            None => Err(SuspendError::RenderingStarted),
            Some(renderer) => if renderer.suspend_callbacks.contains(quantum) {
                Err(SuspendError::AlreadyScheduled)
            } else {
                Ok(())
            },
        }
    }

    /// Schedules a suspension of the time progression in the audio context at the start of a render
    /// quantum, and keeps a promise to resolve when it takes effect.
    ///
    /// The quantum must be one that [`Self::check_suspend`] allows.
    pub fn suspend(&mut self, quantum: usize, promise: W)
        requires
            old(self).wf(),
            suspend_verdict(old(self)@.promises(), old(self)@.length, quantum) is Ok,
        ensures
            final(self).wf(),
            exists|pos: int|
                #[trigger] is_place(old(self)@.promises()->0, quantum, pos) && final(self)@ == old(
                    self,
                )@.promise_scheduled(pos, quantum, promise),
    {
        let mut renderer = self.renderer.take().unwrap();
        renderer.suspend_promises.insert(quantum, promise);
        let ghost now = renderer.suspend_promises@;
        self.renderer = Some(renderer);
        proof {
            let entries = old(self)@.promises()->0;
            let pos = choose|pos: int|
                #[trigger] is_place(entries, quantum, pos) && now == entries.insert(
                    pos,
                    (quantum, promise),
                );
            assert(is_place(entries, quantum, pos));
            assert(self@ == old(self)@.promise_scheduled(pos, quantum, promise));
        }
    }

    /// Schedules a suspension of the time progression in the audio context at the start of a render
    /// quantum, and keeps a callback to run then.
    ///
    /// The quantum must be one that [`Self::check_suspend_sync`] allows.
    pub fn suspend_sync(&mut self, quantum: usize, callback: C)
        requires
            old(self).wf(),
            suspend_verdict(old(self)@.callbacks(), old(self)@.length, quantum) is Ok,
        ensures
            final(self).wf(),
            exists|pos: int|
                #[trigger] is_place(old(self)@.callbacks()->0, quantum, pos) && final(self)@ == old(
                    self,
                )@.callback_scheduled(pos, quantum, callback),
    {
        let mut renderer = self.renderer.take().unwrap();
        renderer.suspend_callbacks.insert(quantum, callback);
        let ghost now = renderer.suspend_callbacks@;
        self.renderer = Some(renderer);
        proof {
            let entries = old(self)@.callbacks()->0;
            let pos = choose|pos: int|
                #[trigger] is_place(entries, quantum, pos) && now == entries.insert(
                    pos,
                    (quantum, callback),
                );
            assert(is_place(entries, quantum, pos));
            assert(self@ == old(self)@.callback_scheduled(pos, quantum, callback));
        }
    }

    /// The time progression has stopped at a suspension that was scheduled at a render quantum.
    pub fn enter_suspension(&mut self, quantum: usize)
        ensures
            final(self)@ == old(self)@.suspended_at(quantum),
            old(self).wf() && old(self)@.in_one_pass() ==> final(self).wf(),
    {
        let frames: usize = if quantum >= quanta_for(self.length) {
            self.length
        } else {
            quantum * RENDER_QUANTUM_SIZE
        };
        if frames > self.rendered_frames {
            self.rendered_frames = frames;
        }
        self.base.set_state(AudioContextState::Suspended);
    }

    /// The time progression goes on after a callback has run.
    pub fn leave_suspension(&mut self)
        ensures
            final(self)@ == old(self)@.running(),
            old(self).wf() ==> final(self).wf(),
    {
        self.base.set_state(AudioContextState::Running);
    }

    /// Tells whether [`Self::resume`] can be called: rendering has started, and the context is not
    /// closed.
    pub fn can_resume(&self) -> (r: bool)
        ensures
            r == (self@.renderer is None && self@.base.state != AudioContextState::Closed),
    {
        self.renderer.is_none() && self.base.state() != AudioContextState::Closed
    }

    /// Resumes the progression of the context's currentTime when it has been suspended.
    ///
    /// Rendering must have started, and the context must not be closed (see [`Self::can_resume`]).
    pub fn resume(&mut self)
        requires
            old(self)@.renderer is None,
            old(self)@.base.state != AudioContextState::Closed,
        ensures
            final(self)@ == old(self)@.running(),
            old(self).wf() ==> final(self).wf(),
    {
        self.base.set_state(AudioContextState::Running);
    }

    /// Registers a callback to run when the rendering has completed.
    ///
    /// Only a single event handler is active at any time. Calling this method multiple times will
    /// override the previous event handler.
    pub fn set_oncomplete(&mut self, callback: H)
        ensures
            final(self)@ == (OfflineView {
                base: BaseView {
                    events: old(self)@.base.events.with_handler(EventType::Complete, Some(callback)),
                    ..old(self)@.base
                },
                ..old(self)@
            }),
            old(self).wf() ==> final(self).wf(),
    {
        self.base.set_event_handler(EventType::Complete, callback);
    }

    /// Unsets the callback to run when the rendering has completed.
    pub fn clear_oncomplete(&mut self)
        ensures
            final(self)@ == (OfflineView {
                base: BaseView {
                    events: old(self)@.base.events.with_handler(EventType::Complete, None),
                    ..old(self)@.base
                },
                ..old(self)@
            }),
            old(self).wf() ==> final(self).wf(),
    {
        self.base.clear_event_handler(EventType::Complete);
    }
}

} // verus!
