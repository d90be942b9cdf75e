//! What scheduling a suspension of an offline rendering does, and where it is refused.

use vstd::prelude::*;
use crate::events::AudioContextState;
use crate::offline::{OfflineAudioContext, OfflineView, RendererView, SuspendError};
use crate::render_laws::turns;
use crate::suspend::{SuspendSchedule, is_place, rising, scheduled_at};

verus! {

/// A callback can be scheduled at a render quantum exactly if the quantum starts after the beginning
/// and before the end of the buffer, rendering has not started, and no callback is scheduled at that
/// very quantum. What is scheduled at other quanta does not matter. Each refusal has a reason of its
/// own.
pub proof fn law_callback_is_refused_only_where_one_is_scheduled<P, H, W, C>(
    context: OfflineAudioContext<P, H, W, C>,
    quantum: usize,
    r: Result<(), SuspendError>,
)
    requires
        call_ensures(
            OfflineAudioContext::<P, H, W, C>::check_suspend_sync,
            (&context, quantum),
            r,
        ),
    ensures
        ({
            let v = context@;
            let in_range = quantum > 0 && quantum * 128 < v.length;
            let entries = v.renderer->0.suspend_callbacks;
            &&& r is Ok <==> in_range && v.renderer is Some && forall|i: int|
                0 <= i < entries.len() ==> (#[trigger] entries[i]).0 != quantum
            &&& r == Err::<(), _>(SuspendError::NotAfterCurrentTime) <==> quantum == 0
            &&& r == Err::<(), _>(SuspendError::NotBeforeEnd) <==> quantum > 0 && quantum * 128
                >= v.length
            &&& r == Err::<(), _>(SuspendError::RenderingStarted) <==> in_range
                && v.renderer is None
            &&& r == Err::<(), _>(SuspendError::AlreadyScheduled) <==> in_range
                && v.renderer is Some && exists|i: int|
                0 <= i < entries.len() && (#[trigger] entries[i]).0 == quantum
        }),
{
}

/// A promise can be scheduled at a render quantum exactly if the quantum starts after the beginning
/// and before the end of the buffer, rendering has not started, and no promise is scheduled at that
/// very quantum. What is scheduled at other quanta does not matter. Each refusal has a reason of its
/// own.
pub proof fn law_promise_is_refused_only_where_one_is_scheduled<P, H, W, C>(
    context: OfflineAudioContext<P, H, W, C>,
    quantum: usize,
    r: Result<(), SuspendError>,
)
    requires
        call_ensures(OfflineAudioContext::<P, H, W, C>::check_suspend, (&context, quantum), r),
    ensures
        ({
            let v = context@;
            let in_range = quantum > 0 && quantum * 128 < v.length;
            let entries = v.renderer->0.suspend_promises;
            &&& r is Ok <==> in_range && v.renderer is Some && forall|i: int|
                0 <= i < entries.len() ==> (#[trigger] entries[i]).0 != quantum
            &&& r == Err::<(), _>(SuspendError::NotAfterCurrentTime) <==> quantum == 0
            &&& r == Err::<(), _>(SuspendError::NotBeforeEnd) <==> quantum > 0 && quantum * 128
                >= v.length
            &&& r == Err::<(), _>(SuspendError::RenderingStarted) <==> in_range
                && v.renderer is None
            &&& r == Err::<(), _>(SuspendError::AlreadyScheduled) <==> in_range
                && v.renderer is Some && exists|i: int|
                0 <= i < entries.len() && (#[trigger] entries[i]).0 == quantum
        }),
{
}

/// Insertion adds one element.
proof fn lemma_insert_contains<T>(s: Seq<T>, pos: int, x: T, y: T)
    requires
        0 <= pos <= s.len(),
    ensures
        s.insert(pos, x).contains(y) <==> s.contains(y) || y == x,
{
    let t = s.insert(pos, x);
    assert(t[pos] == x);
    if s.contains(y) {
        let i = choose|i: int| 0 <= i < s.len() && s[i] == y;
        assert(t[if i < pos {
            i
        } else {
            i + 1
        }] == y);
    }
    if t.contains(y) && y != x {
        let i = choose|i: int| 0 <= i < t.len() && t[i] == y;
        assert(s[if i < pos {
            i
        } else {
            i - 1
        }] == y);
    }
}

/// Scheduling a callback adds just that: all else that was scheduled stays, the list stays sorted,
/// and nothing else about the context changes. No callback runs.
pub proof fn law_scheduling_a_callback_adds_it<P, H, W, C>(
    context: &mut OfflineAudioContext<P, H, W, C>,
    quantum: usize,
    callback: C,
    x: (usize, C),
)
    requires
        call_ensures(
            OfflineAudioContext::<P, H, W, C>::suspend_sync,
            (context, quantum, callback),
            (),
        ),
        (*context)@.renderer is Some,
    ensures
        ({
            let before = old(context)@;
            let after = final(context)@;
            let entries = before.renderer->0.suspend_callbacks;
            let now = after.renderer->0.suspend_callbacks;
            &&& after.renderer is Some
            &&& now.len() == entries.len() + 1
            &&& now.contains(x) <==> entries.contains(x) || x == (quantum, callback)
            &&& forall|i: int, j: int| 0 <= i < j < now.len() ==> now[i].0 < now[j].0
            &&& after == (OfflineView {
                renderer: Some(
                    RendererView { suspend_callbacks: now, ..before.renderer->0 },
                ),
                ..before
            })
        }),
{
    let entries = (*context)@.renderer->0.suspend_callbacks;
    let pos = choose|pos: int|
        #[trigger] is_place(entries, quantum, pos) && final(context)@ == (
        *context)@.callback_scheduled(pos, quantum, callback);
    lemma_insert_contains(entries, pos, (quantum, callback), x);
    assert(rising(final(context)@.renderer->0.suspend_callbacks));
}

/// Scheduling a promise adds just that: all else that was scheduled stays, the list stays sorted, and
/// nothing else about the context changes.
pub proof fn law_scheduling_a_promise_adds_it<P, H, W, C>(
    context: &mut OfflineAudioContext<P, H, W, C>,
    quantum: usize,
    promise: W,
    x: (usize, W),
)
    requires
        call_ensures(
            OfflineAudioContext::<P, H, W, C>::suspend,
            (context, quantum, promise),
            (),
        ),
        (*context)@.renderer is Some,
    ensures
        ({
            let before = old(context)@;
            let after = final(context)@;
            let entries = before.renderer->0.suspend_promises;
            let now = after.renderer->0.suspend_promises;
            &&& after.renderer is Some
            &&& now.len() == entries.len() + 1
            &&& now.contains(x) <==> entries.contains(x) || x == (quantum, promise)
            &&& forall|i: int, j: int| 0 <= i < j < now.len() ==> now[i].0 < now[j].0
            &&& after == (OfflineView {
                renderer: Some(RendererView { suspend_promises: now, ..before.renderer->0 }),
                ..before
            })
        }),
{
    let entries = (*context)@.renderer->0.suspend_promises;
    let pos = choose|pos: int|
        #[trigger] is_place(entries, quantum, pos) && final(context)@ == (
        *context)@.promise_scheduled(pos, quantum, promise);
    lemma_insert_contains(entries, pos, (quantum, promise), x);
    assert(rising(final(context)@.renderer->0.suspend_promises));
}

/// Scheduling a callback at one quantum never changes the verdict on another quantum, and refuses the
/// same quantum from then on. Promises are not affected.
pub proof fn law_verdicts_on_callbacks_are_independent<P, H, W, C>(
    context: &mut OfflineAudioContext<P, H, W, C>,
    quantum: usize,
    callback: C,
    other: usize,
    before: Result<(), SuspendError>,
    after: Result<(), SuspendError>,
    promise_before: Result<(), SuspendError>,
    promise_after: Result<(), SuspendError>,
)
    requires
        call_ensures(
            OfflineAudioContext::<P, H, W, C>::check_suspend_sync,
            (&*context, quantum),
            Ok::<(), SuspendError>(()),
        ),
        call_ensures(
            OfflineAudioContext::<P, H, W, C>::check_suspend_sync,
            (&*context, other),
            before,
        ),
        call_ensures(
            OfflineAudioContext::<P, H, W, C>::check_suspend,
            (&*context, other),
            promise_before,
        ),
        call_ensures(
            OfflineAudioContext::<P, H, W, C>::suspend_sync,
            (context, quantum, callback),
            (),
        ),
        call_ensures(
            OfflineAudioContext::<P, H, W, C>::check_suspend_sync,
            (&*final(context), other),
            after,
        ),
        call_ensures(
            OfflineAudioContext::<P, H, W, C>::check_suspend,
            (&*final(context), other),
            promise_after,
        ),
    ensures
        other != quantum ==> after == before,
        other == quantum ==> after == Err::<(), _>(SuspendError::AlreadyScheduled),
        promise_after == promise_before,
{
    let entries = (*context)@.renderer->0.suspend_callbacks;
    let now = final(context)@.renderer->0.suspend_callbacks;
    law_callback_is_refused_only_where_one_is_scheduled(
        *context,
        quantum,
        Ok::<(), SuspendError>(()),
    );
    law_callback_is_refused_only_where_one_is_scheduled(*context, other, before);
    law_callback_is_refused_only_where_one_is_scheduled(*final(context), other, after);
    law_scheduling_a_callback_adds_it(context, quantum, callback, (quantum, callback));
    let k = choose|k: int| 0 <= k < now.len() && now[k] == (quantum, callback);
    assert(now[k].0 == quantum);
    if scheduled_at(entries, other) {
        let i = choose|i: int| 0 <= i < entries.len() && (#[trigger] entries[i]).0 == other;
        law_scheduling_a_callback_adds_it(context, quantum, callback, entries[i]);
        assert(entries.contains(entries[i]));
        let j = choose|j: int| 0 <= j < now.len() && now[j] == entries[i];
        assert(now[j].0 == other);
    }
    if scheduled_at(now, other) && other != quantum {
        let j = choose|j: int| 0 <= j < now.len() && (#[trigger] now[j]).0 == other;
        law_scheduling_a_callback_adds_it(context, quantum, callback, now[j]);
        assert(now.contains(now[j]));
        let i = choose|i: int| 0 <= i < entries.len() && entries[i] == now[j];
        assert(entries[i].0 == other);
    }
}

/// Scheduling a promise at one quantum never changes the verdict on another quantum, and refuses the
/// same quantum from then on. Callbacks are not affected.
pub proof fn law_verdicts_on_promises_are_independent<P, H, W, C>(
    context: &mut OfflineAudioContext<P, H, W, C>,
    quantum: usize,
    promise: W,
    other: usize,
    before: Result<(), SuspendError>,
    after: Result<(), SuspendError>,
    callback_before: Result<(), SuspendError>,
    callback_after: Result<(), SuspendError>,
)
    requires
        call_ensures(
            OfflineAudioContext::<P, H, W, C>::check_suspend,
            (&*context, quantum),
            Ok::<(), SuspendError>(()),
        ),
        call_ensures(
            OfflineAudioContext::<P, H, W, C>::check_suspend,
            (&*context, other),
            before,
        ),
        call_ensures(
            OfflineAudioContext::<P, H, W, C>::check_suspend_sync,
            (&*context, other),
            callback_before,
        ),
        call_ensures(
            OfflineAudioContext::<P, H, W, C>::suspend,
            (context, quantum, promise),
            (),
        ),
        call_ensures(
            OfflineAudioContext::<P, H, W, C>::check_suspend,
            (&*final(context), other),
            after,
        ),
        call_ensures(
            OfflineAudioContext::<P, H, W, C>::check_suspend_sync,
            (&*final(context), other),
            callback_after,
        ),
    ensures
        other != quantum ==> after == before,
        other == quantum ==> after == Err::<(), _>(SuspendError::AlreadyScheduled),
        callback_after == callback_before,
{
    let entries = (*context)@.renderer->0.suspend_promises;
    let now = final(context)@.renderer->0.suspend_promises;
    law_promise_is_refused_only_where_one_is_scheduled(
        *context,
        quantum,
        Ok::<(), SuspendError>(()),
    );
    law_promise_is_refused_only_where_one_is_scheduled(*context, other, before);
    law_promise_is_refused_only_where_one_is_scheduled(*final(context), other, after);
    law_scheduling_a_promise_adds_it(context, quantum, promise, (quantum, promise));
    let k = choose|k: int| 0 <= k < now.len() && now[k] == (quantum, promise);
    assert(now[k].0 == quantum);
    if scheduled_at(entries, other) {
        let i = choose|i: int| 0 <= i < entries.len() && (#[trigger] entries[i]).0 == other;
        law_scheduling_a_promise_adds_it(context, quantum, promise, entries[i]);
        assert(entries.contains(entries[i]));
        let j = choose|j: int| 0 <= j < now.len() && now[j] == entries[i];
        assert(now[j].0 == other);
    }
    if scheduled_at(now, other) && other != quantum {
        let j = choose|j: int| 0 <= j < now.len() && (#[trigger] now[j]).0 == other;
        law_scheduling_a_promise_adds_it(context, quantum, promise, now[j]);
        assert(now.contains(now[j]));
        let i = choose|i: int| 0 <= i < entries.len() && entries[i] == now[j];
        assert(entries[i].0 == other);
    }
}

/// A schedule tells what is scheduled at a render quantum, and where: the place that it finds holds
/// the quantum, or is the one that keeps the list sorted.
pub proof fn law_schedule_is_searched<C>(
    schedule: SuspendSchedule<C>,
    quantum: usize,
    found: Result<usize, usize>,
    has: bool,
    n: usize,
)
    requires
        call_ensures(SuspendSchedule::<C>::search, (&schedule, quantum), found),
        call_ensures(SuspendSchedule::<C>::contains, (&schedule, quantum), has),
        call_ensures(SuspendSchedule::<C>::len, (&schedule,), n),
    ensures
        n == schedule@.len(),
        has <==> exists|i: int| 0 <= i < schedule@.len() && (#[trigger] schedule@[i]).0 == quantum,
        found is Ok <==> has,
        found matches Ok(pos) ==> pos < schedule@.len() && schedule@[pos as int].0 == quantum,
        found matches Err(pos) ==> pos <= schedule@.len() && (forall|i: int|
            0 <= i < pos ==> (#[trigger] schedule@[i]).0 < quantum) && (forall|i: int|
            pos <= i < schedule@.len() ==> (#[trigger] schedule@[i]).0 > quantum),
{
    if found is Ok {
        assert(schedule@[(found->Ok_0) as int].0 == quantum);
    }
}

/// What is scheduled is in the list from then on, with all that was there before, and the list stays
/// sorted.
pub proof fn law_schedule_takes_in<C>(
    schedule: &mut SuspendSchedule<C>,
    quantum: usize,
    action: C,
    x: (usize, C),
)
    requires
        call_ensures(SuspendSchedule::<C>::insert, (schedule, quantum, action), ()),
    ensures
        final(schedule)@.len() == old(schedule)@.len() + 1,
        final(schedule)@.contains(x) <==> old(schedule)@.contains(x) || x == (quantum, action),
        forall|i: int, j: int|
            0 <= i < j < final(schedule)@.len() ==> final(schedule)@[i].0 < final(schedule)@[j].0,
{
    let entries = (*schedule)@;
    let pos = choose|pos: int|
        #[trigger] is_place(entries, quantum, pos) && final(schedule)@
            == entries.insert(pos, (quantum, action));
    lemma_insert_contains(entries, pos, (quantum, action), x);
}

/// A new schedule is empty.
pub proof fn law_new_schedule_is_empty<C>(r: SuspendSchedule<C>)
    requires
        call_ensures(SuspendSchedule::<C>::new, (), r),
    ensures
        r@.len() == 0,
{
}

/// What is due at a quantum is what stands first in the list, if it is scheduled at that quantum; it
/// is taken out, and nothing else. Otherwise nothing is taken out.
pub proof fn law_due_action_is_taken_out<C>(
    schedule: &mut SuspendSchedule<C>,
    quantum: usize,
    r: Option<C>,
)
    requires
        call_ensures(SuspendSchedule::<C>::take_due, (schedule, quantum), r),
    ensures
        r is Some <==> old(schedule)@.len() > 0 && old(schedule)@[0].0 == quantum,
        r matches Some(action) ==> old(schedule)@ == seq![(quantum, action)] + final(schedule)@,
        r is None ==> final(schedule)@ == old(schedule)@,
{
    if r is Some {
        assert((*schedule)@ =~= seq![(quantum, r->0)] + final(schedule)@);
    }
}

/// At a suspension the context is suspended, and announces that if it was not so. The frames before
/// the quantum have been rendered then, but never more than there are, and never fewer than before.
pub proof fn law_suspension_stops_the_time<P, H, W, C>(
    context: &mut OfflineAudioContext<P, H, W, C>,
    quantum: usize,
)
    requires
        call_ensures(
            OfflineAudioContext::<P, H, W, C>::enter_suspension,
            (context, quantum),
            (),
        ),
        (*context)@.length > 0,
    ensures
        ({
            let before = old(context)@;
            let after = final(context)@;
            let due = if quantum * 128 < before.length {
                quantum * 128
            } else {
                before.length as int
            };
            &&& turns(before.base, after.base, AudioContextState::Suspended)
            &&& after.rendered_frames >= due
            &&& after.rendered_frames >= before.rendered_frames
            &&& after.rendered_frames == due || after.rendered_frames == before.rendered_frames
            &&& after == (OfflineView {
                base: after.base,
                rendered_frames: after.rendered_frames,
                ..before
            })
        }),
{
}

/// After a suspension the context runs again, and announces that if it did not; nothing else changes.
/// Resuming does the same.
pub proof fn law_time_goes_on_after_a_suspension<P, H, W, C>(
    left: &mut OfflineAudioContext<P, H, W, C>,
    resumed: &mut OfflineAudioContext<P, H, W, C>,
)
    requires
        call_ensures(OfflineAudioContext::<P, H, W, C>::leave_suspension, (left,), ()),
        call_ensures(OfflineAudioContext::<P, H, W, C>::resume, (resumed,), ()),
        (*left)@ == (*resumed)@,
    ensures
        ({
            let before = old(left)@;
            let after = final(left)@;
            &&& turns(before.base, after.base, AudioContextState::Running)
            &&& after == (OfflineView { base: after.base, ..before })
            &&& final(resumed)@ == after
        }),
{
}

/// A context can be resumed exactly if rendering has started and it is not closed.
pub proof fn law_resuming_needs_a_started_rendering<P, H, W, C>(
    context: OfflineAudioContext<P, H, W, C>,
    r: bool,
)
    requires
        call_ensures(OfflineAudioContext::<P, H, W, C>::can_resume, (&context,), r),
    ensures
        context@.renderer is Some ==> !r,
        context@.base.state == AudioContextState::Closed ==> !r,
        context@.renderer is None && context@.base.state != AudioContextState::Closed ==> r,
{
}

} // verus!
