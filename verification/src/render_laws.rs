//! What rendering an offline context does, in one pass and in increments.

use vstd::prelude::*;
use crate::concrete_base::{BaseView, ConcreteBaseAudioContext};
use crate::events::{
    AudioBuffer, AudioBufferView, AudioContextState, EventLoopView, EventView, channel_views,
};
use crate::offline::{
    OfflineAudioContext, OfflineView, PassStep, after_steps, appended, callback_at,
    engine_after_steps, has_shape, is_pass, is_step, no_samples, pass_buffer, pass_samples,
    quanta_for, ran, rendered_by,
};
use crate::offline_laws::{lemma_callback_at, lemma_pass_goes_on};
use crate::param::Float32;
use crate::suspend::SuspendSchedule;

verus! {

/// Whether a context has got another state, which it announces if it is a different one, and is the
/// same otherwise.
pub open spec fn turns<P, H>(
    before: BaseView<P, H>,
    after: BaseView<P, H>,
    state: AudioContextState,
) -> bool {
    &&& after == (BaseView { state, events: after.events, ..before })
    &&& after.events == (EventLoopView { pending: after.events.pending, ..before.events })
    &&& before.state == state ==> after.events.pending == before.events.pending
    &&& before.state != state ==> after.events.pending == before.events.pending.push(
        EventView::StateChange(state),
    )
}

/// Whether a context has been closed, and then has announced the end of the rendering with a buffer.
pub open spec fn closes_with<P, H>(
    before: BaseView<P, H>,
    after: BaseView<P, H>,
    result: AudioBufferView,
) -> bool {
    &&& after.events.pending.len() > 0
    &&& after.events.pending.last() == EventView::Complete(result)
    &&& turns(
        before,
        BaseView {
            events: EventLoopView { pending: after.events.pending.drop_last(), ..after.events },
            ..after
        },
        AudioContextState::Closed,
    )
}

/// The frame at which an incremental render goes on.
pub open spec fn next_frame<P, H, W, C>(v: OfflineView<P, H, W, C>) -> int {
    match v.incremental {
        Some(inc) => inc.quantum * 128,
        None => 0,
    }
}

/// The last frame that rendering up to a frame has to reach.
pub open spec fn goal<P, H, W, C>(v: OfflineView<P, H, W, C>, upto_frame: usize) -> int {
    if upto_frame < v.length {
        upto_frame as int
    } else {
        v.length as int
    }
}

/// A number of render quanta holds a number of frames, and one quantum less does not.
pub proof fn law_quanta_hold_the_frames(frames: usize, r: usize)
    requires
        call_ensures(quanta_for, (frames,), r),
    ensures
        frames <= r * 128,
        r > 0 ==> (r - 1) * 128 < frames,
{
}

/// Rendering up to a frame can begin as long as nothing else has claimed the renderer, and the render
/// has not finished. The quanta to render are those that are missing to reach the frame (or the end
/// of the buffer), and no more. The context runs, the renderer is claimed, and what has been rendered
/// before stays.
pub proof fn law_segment_begins<P, H, W, C>(
    context: &mut OfflineAudioContext<P, H, W, C>,
    upto_frame: usize,
    r: Option<usize>,
)
    requires
        call_ensures(
            OfflineAudioContext::<P, H, W, C>::begin_segment,
            (context, upto_frame),
            r,
        ),
    ensures
        ({
            let before = old(context)@;
            let after = final(context)@;
            &&& r is None <==> before.renderer is None && before.incremental is None
            &&& r is None ==> after == before
            &&& r matches Some(quanta) ==> {
                let to = next_frame(before) + quanta * 128;
                &&& to >= goal(before, upto_frame)
                &&& quanta > 0 ==> to < goal(before, upto_frame) + 128
                &&& turns(before.base, after.base, AudioContextState::Running)
                &&& after.renderer is None
                &&& after.length == before.length
                &&& after.rendered == before.rendered
                &&& after.rendered_frames == before.rendered_frames
                &&& before.incremental is Some ==> after.incremental == before.incremental
                &&& before.incremental is None ==> {
                    &&& after.incremental is Some
                    &&& after.incremental->0.quantum == 0
                    &&& after.incremental->0.buffer.len() == before.base.max_channel_count
                    &&& forall|c: int|
                        0 <= c < before.base.max_channel_count ==> (
                        #[trigger] after.incremental->0.buffer[c]).len() == 0
                }
            }
        }),
{
}

/// Whether sample data, channel by channel, is what the vectors hold.
pub open spec fn holds(vectors: Seq<Vec<Float32>>, samples: Seq<Seq<Float32>>) -> bool {
    &&& vectors.len() == samples.len()
    &&& forall|c: int| 0 <= c < samples.len() ==> #[trigger] samples[c] == vectors[c]@
}

/// Whether the samples of a segment have been added behind those that were there, on each channel.
pub open spec fn continues(
    before: Seq<Seq<Float32>>,
    samples: Seq<Seq<Float32>>,
    after: Seq<Seq<Float32>>,
) -> bool {
    &&& after.len() == before.len()
    &&& forall|c: int|
        0 <= c < before.len() ==> #[trigger] after[c] == before[c] + samples[c]
}

/// Whether a buffer holds the samples of a finished render, up to its length: first those that were
/// there, then those of the last segment.
pub open spec fn fills(
    before: Seq<Seq<Float32>>,
    samples: Seq<Seq<Float32>>,
    length: int,
    after: Seq<Seq<Float32>>,
) -> bool {
    &&& after.len() == before.len()
    &&& forall|c: int|
        0 <= c < before.len() ==> {
            &&& (#[trigger] after[c]).len() == length
            &&& forall|f: int|
                0 <= f < length ==> #[trigger] after[c][f] == (if f < before[c].len() {
                    before[c][f]
                } else {
                    samples[c][f - before[c].len()]
                })
        }
}

/// Whether a segment of an incremental render has been taken in. Short of the end the context is
/// suspended, and the render goes on behind the segment. At the end the buffer is there with all the
/// frames of its length; the context is closed, and announces the end with that buffer.
pub open spec fn takes_in<P, H, W, C>(
    before: OfflineView<P, H, W, C>,
    quanta: int,
    samples: Seq<Seq<Float32>>,
    after: OfflineView<P, H, W, C>,
) -> bool {
    let to = next_frame(before) + quanta * 128;
    let earlier = before.incremental->0.buffer;
    &&& after.length == before.length
    &&& after.renderer == before.renderer
    &&& to < before.length ==> {
        &&& after.rendered_frames == to
        &&& after.incremental is Some
        &&& next_frame(after) == to
        &&& continues(earlier, samples, after.incremental->0.buffer)
        &&& after.rendered == before.rendered
        &&& turns(before.base, after.base, AudioContextState::Suspended)
    }
    &&& to >= before.length ==> {
        &&& after.rendered_frames == before.length
        &&& after.incremental is None
        &&& after.rendered is Some
        &&& after.rendered->0.sample_rate == before.base.sample_rate
        &&& fills(earlier, samples, before.length as int, after.rendered->0.channels)
        &&& closes_with(before.base, after.base, after.rendered->0)
    }
}

proof fn lemma_takes_in<P, H, W, C>(
    before: OfflineView<P, H, W, C>,
    quanta: int,
    samples: Seq<Seq<Float32>>,
)
    requires
        before.inv(),
        before.incremental is Some,
        0 <= quanta,
        before.quantum() + quanta <= before.num_quanta(),
        has_shape(samples, before.channels(), quanta * 128),
    ensures
        takes_in(before, quanta, samples, before.segment_finished(quanta, samples)),
{
    let q = before.quantum() + quanta;
    assert(q * 128 == before.quantum() * 128 + quanta * 128);
    let earlier = before.incremental->0.buffer;
    let after = before.segment_finished(quanta, samples);
    let joined = appended(earlier, samples);
    if q * 128 >= before.length {
        let result = after.rendered->0;
        assert forall|c: int| 0 <= c < earlier.len() implies {
            &&& (#[trigger] result.channels[c]).len() == before.length
            &&& forall|f: int|
                0 <= f < before.length ==> #[trigger] result.channels[c][f] == (if f
                    < earlier[c].len() {
                    earlier[c][f]
                } else {
                    samples[c][f - earlier[c].len()]
                })
        } by {
            assert(joined[c] == earlier[c] + samples[c]);
        }
        let closed = before.base.with_state(AudioContextState::Closed);
        assert(after.base.events.pending.drop_last() =~= closed.events.pending);
    }
}

/// A segment of an incremental render is taken in behind what has been rendered before, and the
/// number of rendered frames is returned.
pub proof fn law_segment_is_taken_in<P, H, W, C>(
    context: &mut OfflineAudioContext<P, H, W, C>,
    quanta: usize,
    samples: Vec<Vec<Float32>>,
    r: usize,
)
    requires
        (*context).wf(),
        (*context)@.incremental is Some,
        (*context)@.quantum() + quanta <= (*context)@.num_quanta(),
        has_shape(channel_views(samples@), (*context)@.channels(), quanta * 128),
        call_ensures(
            OfflineAudioContext::<P, H, W, C>::finish_segment,
            (context, quanta, samples),
            r,
        ),
    ensures
        exists|given: Seq<Seq<Float32>>|
            holds(samples@, given) && #[trigger] takes_in(
                old(context)@,
                quanta as int,
                given,
                final(context)@,
            ),
        r == final(context)@.rendered_frames,
{
    lemma_takes_in((*context)@, quanta as int, channel_views(samples@));
    assert(holds(samples@, channel_views(samples@)));
}

/// Whether a context has been rendered up to a frame: where frames are missing, the render engine has
/// rendered whole quanta until the frame is reached (or the end of the buffer), and no more.
pub open spec fn renders_upto<P, H, W, C, R: FnOnce(usize) -> Vec<Vec<Float32>>>(
    before: OfflineView<P, H, W, C>,
    upto_frame: usize,
    render: R,
    after: OfflineView<P, H, W, C>,
) -> bool {
    exists|begun: OfflineView<P, H, W, C>, quanta: usize, samples: Seq<Seq<Float32>>|
        {
            &&& #[trigger] takes_in(begun, quanta as int, samples, after)
            &&& quanta > 0 ==> exists|rendered: Vec<Vec<Float32>>|
                #[trigger] call_ensures(render, (quanta,), rendered) && holds(rendered@, samples)
            &&& next_frame(begun) == next_frame(before)
            &&& next_frame(before) + quanta * 128 >= goal(before, upto_frame)
            &&& quanta > 0 ==> next_frame(before) + quanta * 128 < goal(before, upto_frame) + 128
            &&& quanta == 0 ==> forall|c: int|
                0 <= c < samples.len() ==> (#[trigger] samples[c]).len() == 0
            &&& turns(before.base, begun.base, AudioContextState::Running)
            &&& begun.renderer is None
            &&& begun.length == before.length
            &&& before.incremental is Some ==> begun.incremental == before.incremental
            &&& before.incremental is None ==> {
                &&& begun.incremental->0.buffer.len() == before.base.max_channel_count
                &&& forall|c: int|
                    0 <= c < begun.incremental->0.buffer.len() ==> (
                    #[trigger] begun.incremental->0.buffer[c]).len() == 0
            }
        }
}

/// Rendering up to a frame continues what has been rendered before, and reaches the frame, or the end
/// of the buffer. It never goes back, stops at the end of a render quantum (or of the buffer), and
/// renders no quantum more than it takes. The buffer is there exactly if the end has been reached.
/// Once the render has finished, or something else has claimed the renderer, nothing happens.
pub proof fn law_rendering_reaches_the_frame<
    P,
    H,
    W,
    C,
    R: FnOnce(usize) -> Vec<Vec<Float32>>,
>(context: &mut OfflineAudioContext<P, H, W, C>, upto_frame: usize, render: R, r: usize)
    requires
        (*context).wf(),
        forall|samples: Vec<Vec<Float32>>|
            #[trigger] call_ensures(
                render,
                ((*context)@.missing_quanta(upto_frame) as usize,),
                samples,
            ) ==> has_shape(
                channel_views(samples@),
                (*context)@.channels(),
                (*context)@.missing_quanta(upto_frame) * 128,
            ),
        call_ensures(
            OfflineAudioContext::<P, H, W, C>::render_upto_sync::<R>,
            (context, upto_frame, render),
            r,
        ),
    ensures
        ({
            let before = old(context)@;
            let after = final(context)@;
            let can_render = before.renderer is Some || before.incremental is Some;
            &&& r == after.rendered_frames
            &&& !can_render ==> after == before
            &&& can_render ==> {
                &&& before.rendered_frames <= r <= before.length
                &&& goal(before, upto_frame) <= r
                &&& r < before.length ==> r % 128 == 0
                &&& r > before.rendered_frames ==> r < goal(before, upto_frame) + 128
                &&& after.renderer is None
                &&& r < before.length ==> {
                    &&& after.incremental is Some
                    &&& after.rendered is None
                    &&& after.base.state is Suspended
                }
                &&& r == before.length ==> {
                    &&& after.incremental is None
                    &&& after.rendered is Some
                    &&& after.base.state is Closed
                    &&& after.base.events.pending.last() == EventView::Complete(after.rendered->0)
                }
                &&& renders_upto(before, upto_frame, render, after)
            }
        }),
{
    let before = (*context)@;
    let after = final(context)@;
    if before.can_render() {
        let n = before.missing_quanta(upto_frame);
        let begun = before.segment_begun();
        assert(begun.inv());
        assert(begun.quantum() == before.quantum());
        if n > 0 {
            let samples = choose|samples: Vec<Vec<Float32>>|
                #[trigger] call_ensures(render, (n as usize,), samples) && after
                    == before.rendered_upto(upto_frame, channel_views(samples@));
            lemma_takes_in(begun, n, channel_views(samples@));
            assert(holds(samples@, channel_views(samples@)));
            assert(takes_in(begun, (n as usize) as int, channel_views(samples@), after));
        } else {
            lemma_takes_in(begun, 0, no_samples(before.channels()));
            assert(takes_in(begun, 0usize as int, no_samples(before.channels()), after));
        }
    }
}

/// A finished render can be taken once, and only then; taking it changes nothing else.
pub proof fn law_finished_render_is_taken_once<P, H, W, C>(
    context: &mut OfflineAudioContext<P, H, W, C>,
    r: Option<AudioBuffer>,
    later: &mut OfflineAudioContext<P, H, W, C>,
    again: Option<AudioBuffer>,
)
    requires
        call_ensures(OfflineAudioContext::<P, H, W, C>::take_rendered_sync, (context,), r),
        (*later)@ == final(context)@,
        call_ensures(OfflineAudioContext::<P, H, W, C>::take_rendered_sync, (later,), again),
    ensures
        r is Some <==> old(context)@.rendered is Some,
        r matches Some(buffer) ==> buffer@ == old(context)@.rendered->0,
        again is None,
        final(context)@ == (OfflineView { rendered: None, ..old(context)@ }),
        final(later)@ == final(context)@,
{
}

/// A context tells its length, its frame count and whether rendering can start, as they are.
pub proof fn law_context_tells_its_progress<P, H, W, C>(
    context: OfflineAudioContext<P, H, W, C>,
    length: usize,
    frames: usize,
    can_start: bool,
    base: &ConcreteBaseAudioContext<P, H>,
)
    requires
        call_ensures(OfflineAudioContext::<P, H, W, C>::length, (&context,), length),
        call_ensures(OfflineAudioContext::<P, H, W, C>::rendered_frames_sync, (&context,), frames),
        call_ensures(OfflineAudioContext::<P, H, W, C>::can_start_rendering, (&context,), can_start),
        call_ensures(OfflineAudioContext::<P, H, W, C>::base, (&context,), base),
    ensures
        length == context@.length,
        frames == context@.rendered_frames,
        can_start <==> context@.renderer is Some,
        base@ == context@.base,
{
}

/// What is done to the audio graph of an offline context touches nothing else.
pub proof fn law_audio_graph_is_worked_on<P, H, W, C>(
    context: &mut OfflineAudioContext<P, H, W, C>,
    base: &mut ConcreteBaseAudioContext<P, H>,
)
    requires
        call_ensures(OfflineAudioContext::<P, H, W, C>::base_mut, (context,), base),
    ensures
        old(base)@ == old(context)@.base,
        final(context)@ == (OfflineView { base: final(base)@, ..old(context)@ }),
{
}

/// Whether rendering in one pass has started: the renderer is claimed, the context runs, and nothing
/// else has changed.
pub open spec fn starts<P, H, W, C>(
    before: OfflineView<P, H, W, C>,
    after: OfflineView<P, H, W, C>,
) -> bool {
    &&& turns(before.base, after.base, AudioContextState::Running)
    &&& after == (OfflineView { base: after.base, renderer: None, ..before })
}

/// Whether a rendering in one pass has ended: all frames are counted, the context is closed, announces
/// the end with the buffer, and nothing else has changed.
pub open spec fn ends<P, H, W, C>(
    before: OfflineView<P, H, W, C>,
    after: OfflineView<P, H, W, C>,
    result: AudioBufferView,
) -> bool {
    &&& closes_with(before.base, after.base, result)
    &&& after == (OfflineView { base: after.base, rendered_frames: before.length, ..before })
}

/// Starting to render hands out what is scheduled for that way of rendering: the callbacks where it is
/// done synchronously, the promises otherwise.
pub proof fn law_start_hands_out_what_is_scheduled<P, H, W, C>(
    context: &mut OfflineAudioContext<P, H, W, C>,
    callbacks: SuspendSchedule<C>,
    other: &mut OfflineAudioContext<P, H, W, C>,
    promises: SuspendSchedule<W>,
)
    requires
        (*context)@.renderer is Some,
        (*other)@ == (*context)@,
        call_ensures(
            OfflineAudioContext::<P, H, W, C>::claim_renderer_sync,
            (context,),
            callbacks,
        ),
        call_ensures(OfflineAudioContext::<P, H, W, C>::start_rendering, (other,), promises),
    ensures
        callbacks@ == old(context)@.renderer->0.suspend_callbacks,
        starts(old(context)@, final(context)@),
        promises@ == old(context)@.renderer->0.suspend_promises,
        starts(old(context)@, final(other)@),
{
}

/// When the buffer has been rendered, it is handed out as it is.
pub proof fn law_rendered_buffer_is_handed_out<P, H, W, C>(
    context: &mut OfflineAudioContext<P, H, W, C>,
    result: AudioBuffer,
    r: AudioBuffer,
)
    requires
        call_ensures(OfflineAudioContext::<P, H, W, C>::finish_rendering, (context, result), r),
    ensures
        r@ == result@,
        ends(old(context)@, final(context)@, result@),
{
    let closed = (*context)@.base.with_state(AudioContextState::Closed);
    assert(final(context)@.base.events.pending.drop_last() =~= closed.events.pending);
}

/// The handler for the end of the rendering is replaced or taken away; the one for other events, and
/// all else, stays.
pub proof fn law_completion_handler_is_set<P, H, W, C>(
    context: &mut OfflineAudioContext<P, H, W, C>,
    callback: H,
    other: &mut OfflineAudioContext<P, H, W, C>,
)
    requires
        call_ensures(OfflineAudioContext::<P, H, W, C>::set_oncomplete, (context, callback), ()),
        call_ensures(OfflineAudioContext::<P, H, W, C>::clear_oncomplete, (other,), ()),
    ensures
        ({
            let before = old(context)@;
            let after = final(context)@;
            let events = EventLoopView { on_complete: Some(callback), ..before.base.events };
            after == (OfflineView { base: BaseView { events, ..before.base }, ..before })
        }),
        ({
            let before = old(other)@;
            let after = final(other)@;
            let events = EventLoopView { on_complete: None::<H>, ..before.base.events };
            after == (OfflineView { base: BaseView { events, ..before.base }, ..before })
        }),
{
}

/// Whether a callback can be run on a context that has stopped at the start of a render quantum: it is
/// suspended, with all frames before the quantum counted.
pub open spec fn runs_at<P, H, W, C, G: Fn(&mut OfflineAudioContext<P, H, W, C>, C)>(
    run: G,
    context: &mut OfflineAudioContext<P, H, W, C>,
    callback: C,
    before: OfflineView<P, H, W, C>,
    quantum: int,
) -> bool {
    let entered = (*context)@;
    &&& call_ensures(run, (context, callback), ())
    &&& turns(before.base, entered.base, AudioContextState::Suspended)
    &&& entered == (OfflineView {
        base: entered.base,
        rendered_frames: entered.rendered_frames,
        ..before
    })
    &&& entered.rendered_frames >= before.rendered_frames
    &&& quantum * 128 <= before.length ==> {
        &&& entered.rendered_frames >= quantum * 128
        &&& entered.rendered_frames == quantum * 128 || entered.rendered_frames
            == before.rendered_frames
    }
}

/// Whether a render engine can render a quantum.
pub open spec fn renders_quantum<
    P,
    H,
    W,
    C,
    E,
    R: Fn(&mut OfflineAudioContext<P, H, W, C>, E) -> (Vec<Vec<Float32>>, E),
>(
    render: R,
    context: &mut OfflineAudioContext<P, H, W, C>,
    step: PassStep<P, H, W, C, E>,
) -> bool {
    &&& (*context)@ == step.resumed
    &&& exists|rendered: (Vec<Vec<Float32>>, E)|
        {
            &&& #[trigger] call_ensures(render, (context, step.engine), rendered)
            &&& holds(rendered.0@, step.samples)
            &&& rendered.1 == step.engine_after
        }
}

/// Whether a rendering in one pass has a quantum of that number.
pub open spec fn has_quantum<P, H, W, C, E>(steps: Seq<PassStep<P, H, W, C, E>>, i: int) -> bool {
    0 <= i < steps.len()
}

/// Whether a quantum of a rendering in one pass follows the one before: rendering starts with the
/// first, then each goes on where the one before has ended. Where a callback is scheduled, the context
/// that it has left runs again when the quantum is rendered; elsewhere nothing happens in between.
pub open spec fn follows<P, H, W, C, E>(
    before: OfflineView<P, H, W, C>,
    engine: E,
    steps: Seq<PassStep<P, H, W, C, E>>,
    i: int,
) -> bool {
    let callbacks = before.renderer->0.suspend_callbacks;
    let step = steps[i];
    &&& i == 0 ==> starts(before, step.before) && step.engine == engine
    &&& i > 0 ==> step.before == steps[i - 1].after && step.engine == steps[i - 1].engine_after
    &&& (forall|k: int| 0 <= k < callbacks.len() ==> (#[trigger] callbacks[k]).0 != i)
        ==> step.resumed == step.before
    &&& forall|k: int|
        0 <= k < callbacks.len() && (#[trigger] callbacks[k]).0 == i ==> {
            &&& turns(step.left.base, step.resumed.base, AudioContextState::Running)
            &&& step.resumed == (OfflineView { base: step.resumed.base, ..step.left })
        }
}

/// Whether a callback is scheduled at a render quantum.
pub open spec fn is_scheduled<P, H, W, C>(
    before: OfflineView<P, H, W, C>,
    quantum: int,
    callback: C,
) -> bool {
    exists|k: int|
        {
            &&& 0 <= k < before.renderer->0.suspend_callbacks.len()
            &&& (#[trigger] before.renderer->0.suspend_callbacks[k]).0 == quantum
            &&& before.renderer->0.suspend_callbacks[k].1 == callback
        }
}

/// Whether a buffer holds, frame by frame, what was rendered quantum by quantum.
pub open spec fn holds_frames<P, H, W, C, E>(
    channels: Seq<Seq<Float32>>,
    length: int,
    steps: Seq<PassStep<P, H, W, C, E>>,
) -> bool {
    forall|c: int|
        0 <= c < channels.len() ==> {
            &&& (#[trigger] channels[c]).len() == length
            &&& forall|f: int|
                0 <= f < length ==> #[trigger] channels[c][f] == steps[f / 128].samples[c][f % 128]
        }
}

/// One quantum of a rendering in one pass.
proof fn lemma_step_of_a_pass<
    P,
    H,
    W,
    C,
    E,
    G: Fn(&mut OfflineAudioContext<P, H, W, C>, C),
    R: Fn(&mut OfflineAudioContext<P, H, W, C>, E) -> (Vec<Vec<Float32>>, E),
>(
    before: OfflineView<P, H, W, C>,
    callbacks: Seq<(usize, C)>,
    engine: E,
    run: G,
    render: R,
    steps: Seq<PassStep<P, H, W, C, E>>,
    i: int,
)
    requires
        before.inv(),
        before.renderer is Some,
        callbacks == before.renderer->0.suspend_callbacks,
        is_pass(before.started(), callbacks, engine, steps),
        steps.len() == before.num_quanta(),
        0 <= i < steps.len(),
        callback_at(callbacks, i) is Some ==> exists|
            other: &mut OfflineAudioContext<P, H, W, C>,
        | #[trigger]
            ran(
                run,
                other,
                callback_at(callbacks, i)->0,
                steps[i].before.suspended_at(i as usize),
            ) && (*final(other))@ == steps[i].left,
        exists|other: &mut OfflineAudioContext<P, H, W, C>| #[trigger]
            rendered_by(render, other, steps[i]) && (*final(other))@ == steps[i].after,
    ensures
        follows(before, engine, steps, i),
        forall|c: C| #[trigger]
            is_scheduled(before, i, c) ==> exists|other: &mut OfflineAudioContext<P, H, W, C>|
                #[trigger] runs_at(run, other, c, steps[i].before, i) && (*final(other))@
                    == steps[i].left,
        exists|other: &mut OfflineAudioContext<P, H, W, C>| #[trigger]
            renders_quantum(render, other, steps[i]) && (*final(other))@ == steps[i].after,
{
    let step = steps[i];
    lemma_pass_goes_on(before.started(), callbacks, engine, steps, i);
    lemma_pass_goes_on(before.started(), callbacks, engine, steps, i + 1);
    let upto = steps.take(i + 1);
    assert(upto.drop_last() =~= steps.take(i));
    assert(upto.last() == step);
    if i > 0 {
        assert(steps.take(i).last() == steps[i - 1]);
    }
    match callback_at(callbacks, i) {
        Some(c) => {
            lemma_callback_at(callbacks, i, c);
            let k = choose|k: int| 0 <= k < callbacks.len() && callbacks[k] == (i as usize, c);
            assert(callbacks[k].0 == i);
        },
        None => {},
    }
    assert forall|k: int| 0 <= k < callbacks.len() && (#[trigger] callbacks[k]).0
        == i implies callback_at(callbacks, i) is Some by {
        assert(callbacks[k] == (i as usize, callbacks[k].1));
        lemma_callback_at(callbacks, i, callbacks[k].1);
    }
    assert forall|c: C| #[trigger] is_scheduled(before, i, c) implies exists|
        other: &mut OfflineAudioContext<P, H, W, C>,
    | #[trigger]
        runs_at(run, other, c, step.before, i) && (*final(other))@ == step.left by {
        let k = choose|k: int|
            0 <= k < callbacks.len() && (#[trigger] callbacks[k]).0 == i && callbacks[k].1 == c;
        assert(callbacks[k] == (i as usize, c));
        lemma_callback_at(callbacks, i, c);
        let other = choose|other: &mut OfflineAudioContext<P, H, W, C>| #[trigger]
            ran(run, other, c, step.before.suspended_at(i as usize)) && (*final(other))@
                == step.left;
        assert(runs_at(run, other, c, step.before, i));
    }
    let other = choose|other: &mut OfflineAudioContext<P, H, W, C>| #[trigger]
        rendered_by(render, other, step) && (*final(other))@ == step.after;
    let rendered = choose|rendered: (Vec<Vec<Float32>>, E)|
        {
            &&& #[trigger] call_ensures(render, (other, step.engine), rendered)
            &&& channel_views(rendered.0@) == step.samples
            &&& rendered.1 == step.engine_after
        };
    assert(holds(rendered.0@, step.samples));
    assert(renders_quantum(render, other, step));
}

/// Each frame of a rendering in one pass lies in a quantum.
proof fn lemma_frames_of_a_pass<P, H, W, C, E>(
    steps: Seq<PassStep<P, H, W, C, E>>,
    channels: nat,
)
    requires
        forall|i: int| #[trigger]
            is_step(steps, i) ==> has_shape(steps[i].samples, channels, 128),
    ensures
        pass_samples(steps, channels).len() == channels,
        forall|c: int|
            0 <= c < channels ==> {
                &&& (#[trigger] pass_samples(steps, channels)[c]).len() == steps.len() * 128
                &&& forall|f: int|
                    0 <= f < steps.len() * 128 ==> #[trigger] pass_samples(steps, channels)[c][f]
                        == steps[f / 128].samples[c][f % 128]
            },
    decreases steps.len(),
{
    if steps.len() > 0 {
        let earlier = steps.drop_last();
        assert forall|i: int| #[trigger] is_step(earlier, i) implies has_shape(
            earlier[i].samples,
            channels,
            128,
        ) by {
            assert(is_step(steps, i));
        }
        lemma_frames_of_a_pass(earlier, channels);
        assert(is_step(steps, steps.len() - 1));
        let before = pass_samples(earlier, channels);
        let all = pass_samples(steps, channels);
        assert forall|c: int| 0 <= c < channels implies {
            &&& (#[trigger] all[c]).len() == steps.len() * 128
            &&& forall|f: int|
                0 <= f < steps.len() * 128 ==> #[trigger] all[c][f]
                    == steps[f / 128].samples[c][f % 128]
        } by {
            assert(all[c] == before[c] + steps.last().samples[c]);
            assert forall|f: int| 0 <= f < steps.len() * 128 implies #[trigger] all[c][f]
                == steps[f / 128].samples[c][f % 128] by {
                if f < earlier.len() * 128 {
                    assert(before[c][f] == earlier[f / 128].samples[c][f % 128]);
                    assert(earlier[f / 128] == steps[f / 128]);
                } else {
                    assert(f / 128 == steps.len() - 1);
                }
            }
        }
    }
}

/// The buffer of a rendering in one pass.
proof fn lemma_buffer_of_a_pass<P, H, W, C, E>(
    before: OfflineView<P, H, W, C>,
    steps: Seq<PassStep<P, H, W, C, E>>,
)
    requires
        before.inv(),
        steps.len() == before.num_quanta(),
        forall|i: int| #[trigger]
            is_step(steps, i) ==> has_shape(steps[i].samples, before.channels(), 128),
    ensures
        ({
            let buffer = pass_buffer(before, steps);
            &&& buffer.channels.len() == before.channels()
            &&& holds_frames(buffer.channels, before.length as int, steps)
        }),
{
    lemma_frames_of_a_pass(steps, before.channels());
    let samples = pass_samples(steps, before.channels());
    let buffer = pass_buffer(before, steps);
    assert forall|c: int| 0 <= c < buffer.channels.len() implies {
        &&& (#[trigger] buffer.channels[c]).len() == before.length
        &&& forall|f: int|
            0 <= f < before.length ==> #[trigger] buffer.channels[c][f]
                == steps[f / 128].samples[c][f % 128]
    } by {
        assert(samples[c].len() == steps.len() * 128);
        assert forall|f: int| 0 <= f < before.length implies #[trigger] buffer.channels[c][f]
            == steps[f / 128].samples[c][f % 128] by {
            assert(samples[c][f] == steps[f / 128].samples[c][f % 128]);
        }
    }
}

/// Rendering in one pass goes through all quanta of the buffer, runs each scheduled callback at its
/// quantum, and hands out a buffer of the length and the channels of the context: the sample at each
/// frame is the one that the render engine has rendered there.
#[verifier::rlimit(50)]
pub proof fn law_one_pass_renders_each_frame<
    P,
    H,
    W,
    C,
    E,
    G: Fn(&mut OfflineAudioContext<P, H, W, C>, C),
    R: Fn(&mut OfflineAudioContext<P, H, W, C>, E) -> (Vec<Vec<Float32>>, E),
>(
    context: &mut OfflineAudioContext<P, H, W, C>,
    engine: E,
    run: G,
    render: R,
    r: (AudioBuffer, E),
)
    requires
        (*context).wf(),
        (*context)@.renderer is Some,
        forall|other: &mut OfflineAudioContext<P, H, W, C>, e: E, rendered: (Vec<Vec<Float32>>, E)|
            #[trigger] call_ensures(render, (other, e), rendered) ==> has_shape(
                channel_views(rendered.0@),
                (*context)@.channels(),
                128,
            ),
        call_ensures(
            OfflineAudioContext::<P, H, W, C>::start_rendering_sync::<E, G, R>,
            (context, engine, run, render),
            r,
        ),
    ensures
        r.0@.sample_rate == old(context)@.base.sample_rate,
        r.0@.channels.len() == old(context)@.base.max_channel_count,
        exists|steps: Seq<PassStep<P, H, W, C, E>>|
            {
                &&& steps.len() > 0
                &&& (steps.len() - 1) * 128 < old(context)@.length <= steps.len() * 128
                &&& forall|i: int| #[trigger]
                    has_quantum(steps, i) ==> follows(old(context)@, engine, steps, i)
                &&& forall|i: int, c: C|
                    #![trigger has_quantum(steps, i), is_scheduled(old(context)@, i, c)]
                    has_quantum(steps, i) && is_scheduled(old(context)@, i, c) ==> exists|
                        other: &mut OfflineAudioContext<P, H, W, C>,
                    | #[trigger]
                        runs_at(run, other, c, steps[i].before, i) && (*final(other))@
                            == steps[i].left
                &&& forall|i: int| #[trigger]
                    has_quantum(steps, i) ==> exists|other: &mut OfflineAudioContext<P, H, W, C>|
                        #[trigger] renders_quantum(render, other, steps[i]) && (*final(other))@
                            == steps[i].after
                &&& #[trigger] holds_frames(r.0@.channels, old(context)@.length as int, steps)
                &&& r.1 == steps.last().engine_after
                &&& ends(steps.last().after, final(context)@, r.0@)
            },
{
    let before = (*context)@;
    let after = final(context)@;
    let callbacks = before.callbacks()->0;
    let steps = choose|steps: Seq<PassStep<P, H, W, C, E>>|
        {
            &&& #[trigger] is_pass(before.started(), callbacks, engine, steps)
            &&& steps.len() == before.num_quanta()
            &&& forall|i: int|
                #[trigger] is_step(steps, i) ==> {
                    &&& callback_at(callbacks, i) is Some ==> exists|
                        other: &mut OfflineAudioContext<P, H, W, C>,
                    | #[trigger]
                        ran(
                            run,
                            other,
                            callback_at(callbacks, i)->0,
                            steps[i].before.suspended_at(i as usize),
                        ) && (*final(other))@ == steps[i].left
                    &&& exists|other: &mut OfflineAudioContext<P, H, W, C>| #[trigger]
                        rendered_by(render, other, steps[i]) && (*final(other))@ == steps[i].after
                }
            &&& r.0@ == pass_buffer(before, steps)
            &&& r.1 == engine_after_steps(engine, steps)
            &&& after == after_steps(before.started(), steps).completed(r.0@)
        };
    assert forall|i: int| #[trigger] has_quantum(steps, i) implies follows(
        before,
        engine,
        steps,
        i,
    ) by {
        assert(is_step(steps, i));
        lemma_step_of_a_pass(before, callbacks, engine, run, render, steps, i);
    }
    assert forall|i: int, c: C|
        #![trigger has_quantum(steps, i), is_scheduled(before, i, c)]
        has_quantum(steps, i) && is_scheduled(before, i, c) implies exists|
        other: &mut OfflineAudioContext<P, H, W, C>,
    | #[trigger]
        runs_at(run, other, c, steps[i].before, i) && (*final(other))@ == steps[i].left by {
        assert(is_step(steps, i));
        lemma_step_of_a_pass(before, callbacks, engine, run, render, steps, i);
    }
    assert forall|i: int| #[trigger] has_quantum(steps, i) implies exists|
        other: &mut OfflineAudioContext<P, H, W, C>,
    | #[trigger]
        renders_quantum(render, other, steps[i]) && (*final(other))@ == steps[i].after by {
        assert(is_step(steps, i));
        lemma_step_of_a_pass(before, callbacks, engine, run, render, steps, i);
    }
    assert forall|i: int| #[trigger] is_step(steps, i) implies has_shape(
        steps[i].samples,
        before.channels(),
        128,
    ) by {
        let other = choose|other: &mut OfflineAudioContext<P, H, W, C>| #[trigger]
            rendered_by(render, other, steps[i]) && (*final(other))@ == steps[i].after;
        assert(rendered_by(render, other, steps[i]));
    }
    lemma_buffer_of_a_pass(before, steps);
    let ended = steps.last().after;
    let closed = ended.base.with_state(AudioContextState::Closed);
    assert(after.base.events.pending.drop_last() =~= closed.events.pending);
    assert(ends(ended, after, r.0@));
    assert(r.1 == steps.last().engine_after);
    assert(holds_frames(r.0@.channels, before.length as int, steps));
}

} // verus!
