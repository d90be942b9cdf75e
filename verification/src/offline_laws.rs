//! What holds of an offline context whatever is called in which order.

use vstd::prelude::*;
use crate::events::{AudioBufferView, AudioContextState, EventView};
use crate::node::RENDER_QUANTUM_SIZE;
use crate::offline::{
    OfflineView, PassStep, after_steps, appended, callback_at, frames_in, goes_on, has_shape, is_pass,
    is_step, pass_buffer, pass_samples, suspend_verdict, truncated,
};
use crate::param::Float32;
use crate::suspend::{
    distinct_quanta, handed_out, law_schedule_holds_what_was_scheduled,
    law_walk_hands_out_each_action_once, left_after, rising, scheduled,
};

verus! {

/// The samples that an audio graph produces from one frame on: `stream` gives the sample of each
/// channel at each frame.
pub open spec fn samples_of(
    stream: spec_fn(int, int) -> Float32,
    channels: nat,
    from_frame: int,
    frames: int,
) -> Seq<Seq<Float32>> {
    Seq::new(channels, |c: int| Seq::new(frames as nat, |f: int| stream(c, from_frame + f)))
}

/// A context, rendered up to each of a list of frames in turn. Whenever samples are missing, the
/// audio graph produces them.
pub open spec fn rendered_in_steps<P, H, W, C>(
    v: OfflineView<P, H, W, C>,
    upto_frames: Seq<usize>,
    stream: spec_fn(int, int) -> Float32,
) -> OfflineView<P, H, W, C>
    decreases upto_frames.len(),
{
    if upto_frames.len() == 0 {
        v
    } else {
        let w = rendered_in_steps(v, upto_frames.drop_last(), stream);
        let upto_frame = upto_frames.last();
        w.rendered_upto(
            upto_frame,
            samples_of(
                stream,
                v.channels(),
                w.quantum() * RENDER_QUANTUM_SIZE,
                w.missing_quanta(upto_frame) * RENDER_QUANTUM_SIZE,
            ),
        )
    }
}

/// The whole buffer, as the audio graph produces it.
pub open spec fn whole_buffer<P, H, W, C>(
    v: OfflineView<P, H, W, C>,
    stream: spec_fn(int, int) -> Float32,
) -> AudioBufferView {
    AudioBufferView {
        channels: samples_of(stream, v.channels(), 0, v.length as int),
        sample_rate: v.base.sample_rate,
    }
}

/// Where an incremental render of `v` can be: not started, under way with the first samples of the
/// buffer, or finished with all of them.
spec fn on_track<P, H, W, C>(
    v: OfflineView<P, H, W, C>,
    w: OfflineView<P, H, W, C>,
    stream: spec_fn(int, int) -> Float32,
) -> bool {
    &&& w.length == v.length
    &&& w.channels() == v.channels()
    &&& w.base.sample_rate == v.base.sample_rate
    &&& match w.incremental {
        Some(inc) => w.renderer is None && inc.quantum < w.num_quanta() && inc.buffer == samples_of(
            stream,
            v.channels(),
            0,
            inc.quantum * RENDER_QUANTUM_SIZE,
        ),
        None => w.renderer is Some || {
            &&& w.rendered == Some(whole_buffer(v, stream))
            &&& w.rendered_frames == w.length
            &&& w.base.state == AudioContextState::Closed
        },
    }
}

proof fn lemma_on_track_step<P, H, W, C>(
    v: OfflineView<P, H, W, C>,
    w: OfflineView<P, H, W, C>,
    upto_frame: usize,
    stream: spec_fn(int, int) -> Float32,
)
    requires
        v.length > 0,
        on_track(v, w, stream),
    ensures
        ({
            let after = w.rendered_upto(
                upto_frame,
                samples_of(
                    stream,
                    v.channels(),
                    w.quantum() * RENDER_QUANTUM_SIZE,
                    w.missing_quanta(upto_frame) * RENDER_QUANTUM_SIZE,
                ),
            );
            &&& on_track(v, after, stream)
            &&& after.renderer is None || !w.can_render()
            &&& upto_frame >= v.length || !w.can_render() ==> !after.can_render()
        }),
{
    let n = w.missing_quanta(upto_frame);
    let q = w.quantum();
    let samples = samples_of(stream, v.channels(), q * RENDER_QUANTUM_SIZE, n * RENDER_QUANTUM_SIZE);
    if w.can_render() {
        let begun = w.segment_begun();
        let buffer = begun.incremental->0.buffer;
        assert(buffer =~~= samples_of(stream, v.channels(), 0, q * RENDER_QUANTUM_SIZE));
        let joined = appended(buffer, samples);
        assert((q + n) * RENDER_QUANTUM_SIZE == q * RENDER_QUANTUM_SIZE + n * RENDER_QUANTUM_SIZE);
        assert(joined =~~= samples_of(stream, v.channels(), 0, (q + n) * RENDER_QUANTUM_SIZE));
        if q + n >= w.num_quanta() {
            assert(truncated(joined, w.length as int) =~~= samples_of(
                stream,
                v.channels(),
                0,
                w.length as int,
            ));
        }
    }
}

proof fn lemma_on_track<P, H, W, C>(
    v: OfflineView<P, H, W, C>,
    upto_frames: Seq<usize>,
    stream: spec_fn(int, int) -> Float32,
)
    requires
        v.inv(),
        v.renderer is Some,
    ensures
        on_track(v, rendered_in_steps(v, upto_frames, stream), stream),
        (exists|i: int| 0 <= i < upto_frames.len() && #[trigger] upto_frames[i] >= v.length)
            ==> !rendered_in_steps(v, upto_frames, stream).can_render(),
    decreases upto_frames.len(),
{
    if upto_frames.len() > 0 {
        let earlier = upto_frames.drop_last();
        lemma_on_track(v, earlier, stream);
        lemma_on_track_step(
            v,
            rendered_in_steps(v, earlier, stream),
            upto_frames.last(),
            stream,
        );
        if exists|i: int| 0 <= i < upto_frames.len() && #[trigger] upto_frames[i] >= v.length {
            let i = choose|i: int|
                0 <= i < upto_frames.len() && #[trigger] upto_frames[i] >= v.length;
            if i < earlier.len() {
                assert(earlier[i] == upto_frames[i]);
            }
        }
    }
}

/// Rendering in arbitrary increments produces the exact same samples as rendering in one pass: all
/// that the audio graph produces, up to the length of the buffer. It ends with a closed context
/// that has counted every frame.
pub proof fn law_chunked_render_equals_one_shot<P, H, W, C>(
    v: OfflineView<P, H, W, C>,
    upto_frames: Seq<usize>,
    stream: spec_fn(int, int) -> Float32,
)
    requires
        v.inv(),
        v.renderer is Some,
        exists|i: int| 0 <= i < upto_frames.len() && #[trigger] upto_frames[i] >= v.length,
    ensures
        ({
            let chunked = rendered_in_steps(v, upto_frames, stream);
            let one_shot = rendered_in_steps(v, seq![usize::MAX], stream);
            &&& chunked.rendered == Some(whole_buffer(v, stream))
            &&& chunked.rendered == one_shot.rendered
            &&& chunked.rendered_frames == v.length
            &&& chunked.base.state == AudioContextState::Closed
        }),
{
    lemma_on_track(v, upto_frames, stream);
    let one = seq![usize::MAX];
    assert(one[0] >= v.length);
    lemma_on_track(v, one, stream);
}

/// Rendering up to a frame never goes back. It reaches the frame (or the end of the buffer), stops
/// at the end of a render quantum (or at the end of the buffer), and never renders a quantum that
/// starts at or behind the frame.
pub proof fn law_render_reaches_the_frame<P, H, W, C>(
    v: OfflineView<P, H, W, C>,
    upto_frame: usize,
    samples: Seq<Seq<Float32>>,
)
    requires
        v.inv(),
        v.can_render(),
    ensures
        ({
            let frames = v.rendered_upto(upto_frame, samples).rendered_frames;
            &&& v.rendered_frames <= frames <= v.length
            &&& upto_frame <= frames || frames == v.length
            &&& frames == v.length || frames % RENDER_QUANTUM_SIZE == 0
            &&& frames > v.rendered_frames ==> frames < upto_frame + RENDER_QUANTUM_SIZE
        }),
{
    let n = v.missing_quanta(upto_frame);
    let q = v.quantum();
    assert((q + n) * RENDER_QUANTUM_SIZE == q * RENDER_QUANTUM_SIZE + n * RENDER_QUANTUM_SIZE);
    let frames = frames_in(q + n, v.length as int);
    assert(0 <= frames <= v.length);
    assert(v.rendered_upto(upto_frame, samples).rendered_frames == frames);
    assert(((q + n) * RENDER_QUANTUM_SIZE) % RENDER_QUANTUM_SIZE as int == 0) by (nonlinear_arith);
}

/// Once a render has finished, or rendering was started in another way, rendering up to a frame is
/// a no-op. Taking the result changes neither that nor the frame count, and nothing is left to be
/// taken a second time.
pub proof fn law_finished_render_stays_finished<P, H, W, C>(
    v: OfflineView<P, H, W, C>,
    upto_frame: usize,
    samples: Seq<Seq<Float32>>,
)
    requires
        v.inv(),
        !v.can_render(),
    ensures
        v.rendered_upto(upto_frame, samples) == v,
        v.taken().rendered_upto(upto_frame, samples) == v.taken(),
        v.taken().rendered is None,
        v.taken().rendered_frames == v.rendered_frames,
        v.taken().inv(),
{
}

/// The renderer is claimed at most once: after rendering was started in one way, it can neither be
/// started again nor be driven incrementally, and no suspension can be scheduled any more.
pub proof fn law_renderer_is_claimed_once<P, H, W, C>(
    v: OfflineView<P, H, W, C>,
    quantum: usize,
    upto_frame: usize,
    samples: Seq<Seq<Float32>>,
)
    requires
        v.inv(),
        v.renderer is Some,
    ensures
        v.started().renderer is None,
        !v.started().can_render(),
        v.started().rendered_upto(upto_frame, samples) == v.started(),
        suspend_verdict(v.started().promises(), v.length, quantum) is Err,
        suspend_verdict(v.started().callbacks(), v.length, quantum) is Err,
        v.rendered_upto(upto_frame, samples).renderer is None,
        suspend_verdict(v.rendered_upto(upto_frame, samples).promises(), v.length, quantum) is Err,
        suspend_verdict(v.rendered_upto(upto_frame, samples).callbacks(), v.length, quantum) is Err,
{
}

/// A suspension can be scheduled at each render quantum that starts after the beginning and before
/// the end of a fresh buffer, but not twice at the same one.
pub proof fn law_each_quantum_is_suspended_once<T>(length: usize, quantum: usize, pos: int, action: T)
    requires
        0 < quantum,
        quantum * RENDER_QUANTUM_SIZE < length,
    ensures
        suspend_verdict(Some(Seq::<(usize, T)>::empty()), length, quantum) is Ok,
        forall|entries: Seq<(usize, T)>|
            0 <= pos <= entries.len() ==> #[trigger] suspend_verdict(
                Some(entries.insert(pos, (quantum, action))),
                length,
                quantum,
            ) is Err,
{
    assert forall|entries: Seq<(usize, T)>| 0 <= pos <= entries.len() implies #[trigger] suspend_verdict(
        Some(entries.insert(pos, (quantum, action))),
        length,
        quantum,
    ) is Err by {
        assert(entries.insert(pos, (quantum, action))[pos].0 == quantum);
    }
}

/// A part of a rendering in one pass is one, too, and the next quantum goes on where it has ended.
pub(crate) proof fn lemma_pass_goes_on<P, H, W, C, E>(
    v: OfflineView<P, H, W, C>,
    callbacks: Seq<(usize, C)>,
    engine: E,
    steps: Seq<PassStep<P, H, W, C, E>>,
    k: int,
)
    requires
        is_pass(v, callbacks, engine, steps),
        0 <= k <= steps.len(),
    ensures
        is_pass(v, callbacks, engine, steps.take(k)),
        k < steps.len() ==> {
            &&& steps[k].before == after_steps(v, steps.take(k))
            &&& goes_on(callback_at(callbacks, k), steps[k])
        },
    decreases steps.len(),
{
    if k < steps.len() {
        lemma_pass_goes_on(v, callbacks, engine, steps.drop_last(), k);
        assert(steps.drop_last().take(k) =~= steps.take(k));
        if k < steps.len() - 1 {
            assert(steps.drop_last()[k] == steps[k]);
        } else {
            assert(steps.take(k) =~= steps.drop_last());
        }
    } else {
        assert(steps.take(k) =~= steps);
    }
}

/// The callback that is due at a render quantum is the one that is scheduled there.
pub(crate) proof fn lemma_callback_at<C>(callbacks: Seq<(usize, C)>, i: int, c: C)
    requires
        rising(callbacks),
        0 <= i < usize::MAX,
    ensures
        callback_at(callbacks, i) == Some(c) <==> callbacks.contains((i as usize, c)),
{
    let n = i as nat;
    let x = (i as usize, c);
    law_walk_hands_out_each_action_once(callbacks, n);
    let out = handed_out(callbacks, n);
    let left = left_after(callbacks, n);
    if callback_at(callbacks, i) == Some(c) {
        assert(callbacks[out.len() as int] == left[0]);
        assert(left[0] == x);
        assert(callbacks.contains(x));
    }
    if callbacks.contains(x) {
        let k = choose|k: int| 0 <= k < callbacks.len() && callbacks[k] == x;
        if k < out.len() {
            assert(callbacks[k] == out[k]);
            assert(out[k].0 < n);
        } else {
            assert(callbacks[k] == left[k - out.len()]);
            assert(left[0].0 >= n);
            assert(callbacks[out.len() as int] == left[0]);
        }
    }
}

/// Whether a context has neither another length nor another frame count than before.
pub open spec fn keeps_time<P, H, W, C>(
    before: OfflineView<P, H, W, C>,
    after: OfflineView<P, H, W, C>,
) -> bool {
    after.length == before.length && after.rendered_frames == before.rendered_frames
}

/// Whether neither the callbacks nor the render engine meddle with the frame count in a rendering in
/// one pass.
pub open spec fn pass_keeps_time<P, H, W, C, E>(
    callbacks: Seq<(usize, C)>,
    steps: Seq<PassStep<P, H, W, C, E>>,
) -> bool {
    forall|i: int| #[trigger]
        is_step(steps, i) ==> {
            &&& callback_at(callbacks, i) is Some ==> keeps_time(
                steps[i].before.suspended_at(i as usize),
                steps[i].left,
            )
            &&& keeps_time(steps[i].resumed, steps[i].after)
        }
}

proof fn lemma_pass_counts_frames<P, H, W, C, E>(
    v: OfflineView<P, H, W, C>,
    engine: E,
    steps: Seq<PassStep<P, H, W, C, E>>,
    k: int,
)
    requires
        v.inv(),
        v.renderer is Some,
        is_pass(v.started(), v.callbacks()->0, engine, steps),
        steps.len() == v.num_quanta(),
        pass_keeps_time(v.callbacks()->0, steps),
        0 <= k <= steps.len(),
    ensures
        ({
            let now = after_steps(v.started(), steps.take(k));
            &&& now.length == v.length
            &&& now.rendered_frames <= k * RENDER_QUANTUM_SIZE
        }),
    decreases k,
{
    if k > 0 {
        let i = k - 1;
        lemma_pass_counts_frames(v, engine, steps, i);
        lemma_pass_goes_on(v.started(), v.callbacks()->0, engine, steps, i);
        assert(is_step(steps, i));
        assert(steps.take(k).last() == steps[i]);
    }
}

/// Rendering in one pass runs each callback exactly once, at the render quantum at which it was
/// scheduled, whatever the order in which that was done: quantum by quantum, from the first to the
/// last, the callback that is due is the one that was scheduled there, if any. When it starts,
/// exactly the frames of the quanta before have been rendered, and the context is suspended; once it
/// has returned the context runs again.
pub proof fn law_suspensions_take_effect_in_order<P, H, W, C, E>(
    v: OfflineView<P, H, W, C>,
    list: Seq<(usize, C)>,
    engine: E,
    steps: Seq<PassStep<P, H, W, C, E>>,
    i: int,
)
    requires
        v.inv(),
        v.renderer is Some,
        v.callbacks() == Some(scheduled(list)),
        distinct_quanta(list),
        is_pass(v.started(), v.callbacks()->0, engine, steps),
        steps.len() == v.num_quanta(),
        pass_keeps_time(v.callbacks()->0, steps),
        0 <= i < steps.len(),
    ensures
        ({
            let callback = callback_at(v.callbacks()->0, i);
            let entered = steps[i].before.suspended_at(i as usize);
            &&& forall|c: C|
                callback == Some(c) <==> #[trigger] list.contains((i as usize, c))
            &&& entered.rendered_frames == i * RENDER_QUANTUM_SIZE
            &&& entered.base.state == AudioContextState::Suspended
            &&& callback is Some ==> {
                &&& steps[i].resumed.base.state == AudioContextState::Running
                &&& steps[i].resumed.rendered_frames == i * RENDER_QUANTUM_SIZE
            }
        }),
{
    let callbacks = v.callbacks()->0;
    law_schedule_holds_what_was_scheduled(list);
    assert forall|c: C|
        callback_at(callbacks, i) == Some(c) <==> #[trigger] list.contains((i as usize, c)) by {
        lemma_callback_at(callbacks, i, c);
        assert(callbacks.contains((i as usize, c)) <==> list.contains((i as usize, c)));
    }
    lemma_pass_counts_frames(v, engine, steps, i);
    lemma_pass_goes_on(v.started(), callbacks, engine, steps, i);
    assert(is_step(steps, i));
}

/// All that is scheduled via `suspend_sync` within the buffer is run: the quantum of each callback is
/// one of those that a rendering in one pass goes through.
pub proof fn law_every_suspension_takes_effect<P, H, W, C>(
    v: OfflineView<P, H, W, C>,
    list: Seq<(usize, C)>,
    j: int,
)
    requires
        v.inv(),
        v.callbacks() == Some(scheduled(list)),
        distinct_quanta(list),
        0 <= j < list.len(),
        list[j].0 * RENDER_QUANTUM_SIZE < v.length,
    ensures
        list[j].0 < v.num_quanta(),
        callback_at(v.callbacks()->0, list[j].0 as int) == Some(list[j].1),
{
    law_schedule_holds_what_was_scheduled(list);
    assert(list.contains(list[j]));
    assert(scheduled(list).contains(list[j]));
    assert(list[j] == (list[j].0, list[j].1));
    lemma_callback_at(v.callbacks()->0, list[j].0 as int, list[j].1);
}

proof fn lemma_pass_samples<P, H, W, C, E>(
    steps: Seq<PassStep<P, H, W, C, E>>,
    channels: nat,
    stream: spec_fn(int, int) -> Float32,
)
    requires
        forall|i: int| #[trigger]
            is_step(steps, i) ==> steps[i].samples == samples_of(
                stream,
                channels,
                i * RENDER_QUANTUM_SIZE,
                RENDER_QUANTUM_SIZE as int,
            ),
    ensures
        pass_samples(steps, channels) == samples_of(
            stream,
            channels,
            0,
            steps.len() * RENDER_QUANTUM_SIZE,
        ),
    decreases steps.len(),
{
    if steps.len() == 0 {
        assert(pass_samples(steps, channels) =~~= samples_of(stream, channels, 0, 0));
    } else {
        let earlier = steps.drop_last();
        assert forall|i: int| #[trigger] is_step(earlier, i) implies earlier[i].samples == samples_of(
            stream,
            channels,
            i * RENDER_QUANTUM_SIZE,
            RENDER_QUANTUM_SIZE as int,
        ) by {
            assert(is_step(steps, i));
        }
        lemma_pass_samples(earlier, channels, stream);
        assert(is_step(steps, steps.len() - 1));
        assert(pass_samples(steps, channels) =~~= samples_of(
            stream,
            channels,
            0,
            steps.len() * RENDER_QUANTUM_SIZE,
        ));
    }
}

/// Rendering in arbitrary increments up to the end gives the exact same buffer as rendering in one
/// pass, of the length of the context, where the audio graph produces the same samples: the result of
/// the last increment is what rendering in one pass returns.
pub proof fn law_chunked_render_equals_one_pass<P, H, W, C, E>(
    v: OfflineView<P, H, W, C>,
    upto_frames: Seq<usize>,
    steps: Seq<PassStep<P, H, W, C, E>>,
    stream: spec_fn(int, int) -> Float32,
)
    requires
        v.inv(),
        v.renderer is Some,
        exists|i: int| 0 <= i < upto_frames.len() && #[trigger] upto_frames[i] >= v.length,
        steps.len() == v.num_quanta(),
        forall|i: int| #[trigger]
            is_step(steps, i) ==> steps[i].samples == samples_of(
                stream,
                v.channels(),
                i * RENDER_QUANTUM_SIZE,
                RENDER_QUANTUM_SIZE as int,
            ),
    ensures
        rendered_in_steps(v, upto_frames, stream).rendered == Some(pass_buffer(v, steps)),
        pass_buffer(v, steps) == whole_buffer(v, stream),
        has_shape(pass_buffer(v, steps).channels, v.channels(), v.length as int),
{
    law_chunked_render_equals_one_shot(v, upto_frames, stream);
    lemma_pass_samples(steps, v.channels(), stream);
    assert(pass_buffer(v, steps).channels =~~= samples_of(
        stream,
        v.channels(),
        0,
        v.length as int,
    ));
}

/// Whether a context is the same as before but for its audio graph, which stays well formed.
pub open spec fn keeps_all_but_graph<P, H, W, C>(
    before: OfflineView<P, H, W, C>,
    after: OfflineView<P, H, W, C>,
) -> bool {
    &&& after == (OfflineView { base: after.base, ..before })
    &&& after.base.max_channel_count == before.base.max_channel_count
    &&& after.base.connections.no_duplicates()
}

/// Rendering in one pass keeps the context well formed if the callbacks and the render engine change
/// nothing but the audio graph.
pub proof fn law_pass_keeps_the_context_well_formed<P, H, W, C, E>(
    v: OfflineView<P, H, W, C>,
    engine: E,
    steps: Seq<PassStep<P, H, W, C, E>>,
    result: AudioBufferView,
)
    requires
        v.inv(),
        v.renderer is Some,
        is_pass(v.started(), v.callbacks()->0, engine, steps),
        forall|i: int| #[trigger]
            is_step(steps, i) ==> {
                &&& callback_at(v.callbacks()->0, i) is Some ==> keeps_all_but_graph(
                    steps[i].before.suspended_at(i as usize),
                    steps[i].left,
                )
                &&& keeps_all_but_graph(steps[i].resumed, steps[i].after)
            },
    ensures
        after_steps(v.started(), steps).inv(),
        after_steps(v.started(), steps).in_one_pass(),
        after_steps(v.started(), steps).completed(result).inv(),
    decreases steps.len(),
{
    if steps.len() > 0 {
        let earlier = steps.drop_last();
        assert forall|i: int| #[trigger] is_step(earlier, i) implies {
            &&& callback_at(v.callbacks()->0, i) is Some ==> keeps_all_but_graph(
                earlier[i].before.suspended_at(i as usize),
                earlier[i].left,
            )
            &&& keeps_all_but_graph(earlier[i].resumed, earlier[i].after)
        } by {
            assert(is_step(steps, i));
        }
        law_pass_keeps_the_context_well_formed(v, engine, earlier, result);
        assert(is_step(steps, steps.len() - 1));
    }
}

/// The frame count never goes back and never passes the length of the buffer, whatever happens to
/// the context.
pub proof fn law_frame_count_never_goes_back<P, H, W, C>(
    v: OfflineView<P, H, W, C>,
    quantum: usize,
    upto_frame: usize,
    samples: Seq<Seq<Float32>>,
    result: AudioBufferView,
)
    requires
        v.inv(),
    ensures
        v.started().rendered_frames == v.rendered_frames,
        v.rendered_frames <= v.suspended_at(quantum).rendered_frames <= v.length,
        v.running().rendered_frames == v.rendered_frames,
        v.rendered_frames <= v.rendered_upto(upto_frame, samples).rendered_frames <= v.length,
        v.rendered_frames <= v.completed(result).rendered_frames <= v.length,
        v.taken().rendered_frames == v.rendered_frames,
{
    if v.can_render() {
        law_render_reaches_the_frame(v, upto_frame, samples);
    }
}

/// The frame count tells what was rendered: all frames once a rendering has completed, however it
/// was started.
pub proof fn law_completed_context_has_counted_all_frames<P, H, W, C>(
    v: OfflineView<P, H, W, C>,
    result: AudioBufferView,
)
    requires
        v.inv(),
        v.in_one_pass(),
    ensures
        v.completed(result).rendered_frames == v.length,
        v.completed(result).base.state == AudioContextState::Closed,
        v.completed(result).inv(),
{
}

/// While an incremental render is parked the context reports to be suspended; the end of the
/// rendering is announced last, by a closed context.
pub proof fn law_parked_context_is_suspended<P, H, W, C>(
    v: OfflineView<P, H, W, C>,
    upto_frame: usize,
    samples: Seq<Seq<Float32>>,
)
    requires
        v.inv(),
        v.can_render(),
    ensures
        ({
            let after = v.rendered_upto(upto_frame, samples);
            if after.can_render() {
                after.base.state == AudioContextState::Suspended
            } else {
                &&& after.base.state == AudioContextState::Closed
                &&& after.rendered is Some
                &&& after.base.events.pending.len() > 0
                &&& after.base.events.pending.last() == EventView::Complete(after.rendered->0)
            }
        }),
{
}

/// Rendering up to a frame keeps the context well formed, given samples of the right shape.
pub proof fn law_rendering_keeps_the_context_well_formed<P, H, W, C>(
    v: OfflineView<P, H, W, C>,
    upto_frame: usize,
    samples: Seq<Seq<Float32>>,
)
    requires
        v.inv(),
        has_shape(samples, v.channels(), v.missing_quanta(upto_frame) * RENDER_QUANTUM_SIZE),
    ensures
        v.rendered_upto(upto_frame, samples).inv(),
{
    if v.can_render() {
        let n = v.missing_quanta(upto_frame);
        let q = v.quantum();
        assert((q + n) * RENDER_QUANTUM_SIZE == q * RENDER_QUANTUM_SIZE + n * RENDER_QUANTUM_SIZE);
    }
}

} // verus!
