//! What waiting for the render thread comes to: which attempts are made, and what follows from them.

use vstd::prelude::*;
use crate::concrete_base::{BaseView, ConcreteBaseAudioContext, survives_stall};
use crate::events::AudioContextState;
use crate::liveness::{
    Liveness, PollStep, RecvOutcome, ReplyProgress, SendOutcome, SendProgress, StallWatch,
    after_silence, frames_read, handed_over, polled, recv_attempt, recv_polls, recv_step,
    send_attempt, send_polls, send_step, sent_in_order, sent_without_stall, silent_receives,
    silent_sends, stalled_at, stalled_on, stopped_at, tried, tried_after_stall, tried_in_order,
    wait_step, waited,
};
use crate::message::{ControlMessage, OutgoingView};
use crate::render_laws::turns;

verus! {

/// A watch starts with the number of frames played, and without any silence.
pub proof fn law_watch_starts_without_silence<H>(
    frames: u64,
    r: StallWatch,
    at: H,
    frames_played: &std::sync::atomic::AtomicU64,
    started: StallWatch,
)
    requires
        call_ensures(StallWatch::new, (frames,), r),
        call_ensures(StallWatch::start::<H>, (&at, frames_played), started),
    ensures
        r.last_frames == frames,
        r.stalled_ms == 0,
        frames_read(at, frames_played, started.last_frames),
        started.stalled_ms == 0,
{
}

/// Whether a poll that timed out is judged rightly: a playhead that has moved is progress, and starts
/// a new grace period; one that stands still adds a poll of 50 milliseconds to the silence, and is a
/// stall as soon as the silence lasts 2000 milliseconds.
pub open spec fn judged(
    before: StallWatch,
    frames: u64,
    liveness: Liveness,
    after: StallWatch,
) -> bool {
    &&& liveness is Progressing <==> frames != before.last_frames
    &&& liveness is Waiting <==> frames == before.last_frames && before.stalled_ms + 50 < 2000
    &&& liveness is Stalled <==> frames == before.last_frames && before.stalled_ms + 50 >= 2000
    &&& after.last_frames == frames
    &&& frames != before.last_frames ==> after.stalled_ms == 0
    &&& frames == before.last_frames ==> after.stalled_ms == before.stalled_ms + 50
}

/// A poll that timed out is judged by the playhead alone.
pub proof fn law_silence_is_judged(watch: &mut StallWatch, frames: u64, r: Liveness)
    requires
        (*watch).stalled_ms < 2000,
        call_ensures(StallWatch::on_timeout, (watch, frames), r),
    ensures
        judged(*old(watch), frames, r, *final(watch)),
{
}

/// Whether a context has been closed in just the given case, and is as it was in any other.
pub open spec fn closed_if<P, H>(
    stalled: bool,
    before: BaseView<P, H>,
    after: BaseView<P, H>,
) -> bool {
    &&& stalled ==> turns(before, after, AudioContextState::Closed)
    &&& !stalled ==> after == before
}

/// A stall, and nothing short of it, closes the context.
pub proof fn law_stall_closes_the_context<P, H>(
    context: &mut ConcreteBaseAudioContext<P, H>,
    watch: &mut StallWatch,
    frames: u64,
    r: Liveness,
)
    requires
        (*watch).stalled_ms < 2000,
        call_ensures(
            ConcreteBaseAudioContext::<P, H>::render_thread_timed_out,
            (context, watch, frames),
            r,
        ),
    ensures
        judged(*old(watch), frames, r, *final(watch)),
        closed_if(r is Stalled, old(context)@, final(context)@),
{
}

/// After an attempt to send a message, the wait is over if the message was taken, if nobody is there
/// to take it, if the playhead has moved, or if the render thread has stalled. Otherwise the same
/// message is tried again.
pub proof fn law_attempt_to_send_is_followed_up<P, H>(
    context: &mut ConcreteBaseAudioContext<P, H>,
    watch: &mut StallWatch,
    outcome: SendOutcome<ControlMessage<P>>,
    frames: u64,
    r: PollStep<SendProgress<P>, ControlMessage<P>>,
)
    requires
        (*watch).stalled_ms < 2000,
        call_ensures(
            ConcreteBaseAudioContext::<P, H>::after_send,
            (context, watch, outcome, frames),
            r,
        ),
    ensures
        ({
            let w = *old(watch);
            let moved = frames != w.last_frames;
            let over = w.stalled_ms + 50 >= 2000;
            &&& outcome is Sent <==> (r matches PollStep::Done(p) && p is Sent)
            &&& outcome is Disconnected <==> (r matches PollStep::Done(p) && p is Discarded)
            &&& outcome matches SendOutcome::Timeout(msg) ==> {
                &&& moved ==> r == PollStep::<_, ControlMessage<P>>::Done(
                    SendProgress::Pending(msg),
                )
                &&& !moved && over ==> (r matches PollStep::Done(p) && p is Stalled)
                &&& !moved && !over ==> r == PollStep::<SendProgress<P>, _>::Again(msg)
                &&& exists|liveness: Liveness| #[trigger]
                    judged(w, frames, liveness, *final(watch))
            }
            &&& !(outcome is Timeout) ==> *final(watch) == w
            &&& closed_if(
                outcome is Timeout && !moved && over,
                old(context)@,
                final(context)@,
            )
        }),
{
    if outcome is Timeout {
        assert(judged(*watch, frames, (*watch).judge(frames), *final(watch)));
    }
}

/// After an attempt to receive an acknowledgement, the wait is over if it came or nobody is there to
/// send it (both are fine), if the playhead has moved (which leaves it open), or if the render thread
/// has stalled (which is a failure). Otherwise there is another attempt.
pub proof fn law_attempt_to_wait_is_followed_up<P, H>(
    context: &mut ConcreteBaseAudioContext<P, H>,
    watch: &mut StallWatch,
    outcome: RecvOutcome<()>,
    frames: u64,
    r: PollStep<Option<bool>, ()>,
)
    requires
        (*watch).stalled_ms < 2000,
        call_ensures(
            ConcreteBaseAudioContext::<P, H>::after_wait,
            (context, watch, outcome, frames),
            r,
        ),
    ensures
        ({
            let w = *old(watch);
            let moved = frames != w.last_frames;
            let over = w.stalled_ms + 50 >= 2000;
            &&& !(outcome is Timeout) ==> {
                &&& r == PollStep::<_, ()>::Done(Some(true))
                &&& *final(watch) == w
            }
            &&& outcome is Timeout ==> {
                &&& moved ==> r == PollStep::<_, ()>::Done(None::<bool>)
                &&& !moved && over ==> r == PollStep::<_, ()>::Done(Some(false))
                &&& !moved && !over ==> r == PollStep::<Option<bool>, _>::Again(())
                &&& exists|liveness: Liveness| #[trigger]
                    judged(w, frames, liveness, *final(watch))
            }
            &&& closed_if(
                outcome is Timeout && !moved && over,
                old(context)@,
                final(context)@,
            )
        }),
{
    if outcome is Timeout {
        assert(judged(*watch, frames, (*watch).judge(frames), *final(watch)));
    }
}

/// After an attempt to receive a payload, the wait is over if it came, if the playhead has moved
/// (which leaves it open), or if it is lost: the render thread has stalled, or nobody is there to send
/// it. A lost payload closes the context. Otherwise there is another attempt.
pub proof fn law_attempt_to_receive_is_followed_up<P, H, T>(
    context: &mut ConcreteBaseAudioContext<P, H>,
    watch: &mut StallWatch,
    outcome: RecvOutcome<T>,
    frames: u64,
    r: PollStep<ReplyProgress<T>, ()>,
)
    requires
        (*watch).stalled_ms < 2000,
        call_ensures(
            ConcreteBaseAudioContext::<P, H>::after_recv::<T>,
            (context, watch, outcome, frames),
            r,
        ),
    ensures
        ({
            let w = *old(watch);
            let moved = frames != w.last_frames;
            let over = w.stalled_ms + 50 >= 2000;
            &&& outcome matches RecvOutcome::Received(v) ==> r == PollStep::<_, ()>::Done(
                ReplyProgress::Received(v),
            )
            &&& outcome is Disconnected ==> r == PollStep::<_, ()>::Done(ReplyProgress::<T>::Lost)
            &&& !(outcome is Timeout) ==> *final(watch) == w
            &&& outcome is Timeout ==> {
                &&& moved ==> r == PollStep::<_, ()>::Done(ReplyProgress::<T>::Pending)
                &&& !moved && over ==> r == PollStep::<_, ()>::Done(ReplyProgress::<T>::Lost)
                &&& !moved && !over ==> r == PollStep::<ReplyProgress<T>, _>::Again(())
                &&& exists|liveness: Liveness| #[trigger]
                    judged(w, frames, liveness, *final(watch))
            }
            &&& closed_if(
                outcome is Disconnected || (outcome is Timeout && !moved && over),
                old(context)@,
                final(context)@,
            )
        }),
{
    if outcome is Timeout {
        assert(judged(*watch, frames, (*watch).judge(frames), *final(watch)));
    }
}

/// The attempts of a wait for room in the channel: while the playhead stands where it stood, and the
/// silence lasts less than 2000 milliseconds, each attempt times out and is followed by a look at the
/// playhead; the last one has the given outcome.
pub open spec fn sends<M>(
    ends: Seq<crossbeam_channel::Sender<M>>,
    frames_played: &std::sync::atomic::AtomicU64,
    watch: StallWatch,
    msg: M,
    outcome: SendOutcome<M>,
    frames: u64,
) -> bool {
    let n = ends.len() - 2;
    &&& n >= 0
    &&& watch.stalled_ms + n * 50 < 2000
    &&& forall|i: int|
        0 <= i < n ==> {
            &&& send_attempt(#[trigger] ends[i], msg, SendOutcome::Timeout(msg), ends[i + 1])
            &&& frames_read(ends[i + 1], frames_played, watch.last_frames)
        }
    &&& send_attempt(ends[n], msg, outcome, ends[n + 1])
    &&& outcome is Timeout ==> frames_read(ends[n + 1], frames_played, frames)
}

/// The attempts of a wait for a message: while the playhead stands where it stood, and the silence
/// lasts less than 2000 milliseconds, each attempt times out and is followed by a look at the
/// playhead; the last one has the given outcome.
pub open spec fn receives<M>(
    ends: Seq<crossbeam_channel::Receiver<M>>,
    frames_played: &std::sync::atomic::AtomicU64,
    watch: StallWatch,
    outcome: RecvOutcome<M>,
    frames: u64,
) -> bool {
    let n = ends.len() - 2;
    &&& n >= 0
    &&& watch.stalled_ms + n * 50 < 2000
    &&& forall|i: int|
        0 <= i < n ==> {
            &&& recv_attempt(#[trigger] ends[i], RecvOutcome::<M>::Timeout, ends[i + 1])
            &&& frames_read(ends[i + 1], frames_played, watch.last_frames)
        }
    &&& recv_attempt(ends[n], outcome, ends[n + 1])
    &&& outcome is Timeout ==> frames_read(ends[n + 1], frames_played, frames)
}

/// The silent attempts to send a message, one after the other.
proof fn lemma_silent_sends<M>(
    before: crossbeam_channel::Sender<M>,
    frames_played: &std::sync::atomic::AtomicU64,
    last_frames: u64,
    msg: M,
    n: nat,
    after: crossbeam_channel::Sender<M>,
) -> (ends: Seq<crossbeam_channel::Sender<M>>)
    requires
        silent_sends(before, frames_played, last_frames, msg, n, after),
    ensures
        ends.len() == n + 1,
        ends[0] == before,
        ends[n as int] == after,
        forall|i: int|
            0 <= i < n ==> {
                &&& send_attempt(#[trigger] ends[i], msg, SendOutcome::Timeout(msg), ends[i + 1])
                &&& frames_read(ends[i + 1], frames_played, last_frames)
            },
    decreases n,
{
    if n == 0 {
        seq![before]
    } else {
        let mid = choose|mid: crossbeam_channel::Sender<M>|
            {
                &&& #[trigger] send_attempt(mid, msg, SendOutcome::Timeout(msg), after)
                &&& silent_sends(before, frames_played, last_frames, msg, (n - 1) as nat, mid)
            };
        let earlier = lemma_silent_sends(
            before,
            frames_played,
            last_frames,
            msg,
            (n - 1) as nat,
            mid,
        );
        let ends = earlier.push(after);
        assert forall|i: int| 0 <= i < n implies {
            &&& send_attempt(#[trigger] ends[i], msg, SendOutcome::Timeout(msg), ends[i + 1])
            &&& frames_read(ends[i + 1], frames_played, last_frames)
        } by {
            assert(ends[i] == earlier[i]);
            if i < n - 1 {
                assert(ends[i + 1] == earlier[i + 1]);
            }
        }
        ends
    }
}

/// The silent attempts to receive a message, one after the other.
proof fn lemma_silent_receives<M>(
    before: crossbeam_channel::Receiver<M>,
    frames_played: &std::sync::atomic::AtomicU64,
    last_frames: u64,
    n: nat,
    after: crossbeam_channel::Receiver<M>,
) -> (ends: Seq<crossbeam_channel::Receiver<M>>)
    requires
        silent_receives(before, frames_played, last_frames, n, after),
    ensures
        ends.len() == n + 1,
        ends[0] == before,
        ends[n as int] == after,
        forall|i: int|
            0 <= i < n ==> {
                &&& recv_attempt(#[trigger] ends[i], RecvOutcome::<M>::Timeout, ends[i + 1])
                &&& frames_read(ends[i + 1], frames_played, last_frames)
            },
    decreases n,
{
    if n == 0 {
        seq![before]
    } else {
        let mid = choose|mid: crossbeam_channel::Receiver<M>|
            {
                &&& #[trigger] recv_attempt(mid, RecvOutcome::<M>::Timeout, after)
                &&& silent_receives(before, frames_played, last_frames, (n - 1) as nat, mid)
            };
        let earlier = lemma_silent_receives(
            before,
            frames_played,
            last_frames,
            (n - 1) as nat,
            mid,
        );
        let ends = earlier.push(after);
        assert forall|i: int| 0 <= i < n implies {
            &&& recv_attempt(#[trigger] ends[i], RecvOutcome::<M>::Timeout, ends[i + 1])
            &&& frames_read(ends[i + 1], frames_played, last_frames)
        } by {
            assert(ends[i] == earlier[i]);
            if i < n - 1 {
                assert(ends[i + 1] == earlier[i + 1]);
            }
        }
        ends
    }
}

proof fn lemma_sends<M>(
    before: crossbeam_channel::Sender<M>,
    frames_played: &std::sync::atomic::AtomicU64,
    watch: StallWatch,
    msg: M,
    n: nat,
    outcome: SendOutcome<M>,
    frames: u64,
    after: crossbeam_channel::Sender<M>,
) -> (ends: Seq<crossbeam_channel::Sender<M>>)
    requires
        send_polls(before, frames_played, watch, msg, n, outcome, frames, after),
    ensures
        ends.len() == n + 2,
        ends[0] == before,
        ends.last() == after,
        sends(ends, frames_played, watch, msg, outcome, frames),
{
    let mid = choose|mid: crossbeam_channel::Sender<M>|
        {
            &&& #[trigger] send_attempt(mid, msg, outcome, after)
            &&& silent_sends(before, frames_played, watch.last_frames, msg, n, mid)
        };
    let silent = lemma_silent_sends(before, frames_played, watch.last_frames, msg, n, mid);
    let ends = silent.push(after);
    assert forall|i: int| 0 <= i < n implies {
        &&& send_attempt(#[trigger] ends[i], msg, SendOutcome::Timeout(msg), ends[i + 1])
        &&& frames_read(ends[i + 1], frames_played, watch.last_frames)
    } by {
        assert(ends[i] == silent[i]);
        assert(ends[i + 1] == silent[i + 1]);
    }
    ends
}

proof fn lemma_receives<M>(
    before: crossbeam_channel::Receiver<M>,
    frames_played: &std::sync::atomic::AtomicU64,
    watch: StallWatch,
    n: nat,
    outcome: RecvOutcome<M>,
    frames: u64,
    after: crossbeam_channel::Receiver<M>,
) -> (ends: Seq<crossbeam_channel::Receiver<M>>)
    requires
        recv_polls(before, frames_played, watch, n, outcome, frames, after),
    ensures
        ends.len() == n + 2,
        ends[0] == before,
        ends.last() == after,
        receives(ends, frames_played, watch, outcome, frames),
{
    let mid = choose|mid: crossbeam_channel::Receiver<M>|
        {
            &&& #[trigger] recv_attempt(mid, outcome, after)
            &&& silent_receives(before, frames_played, watch.last_frames, n, mid)
        };
    let silent = lemma_silent_receives(before, frames_played, watch.last_frames, n, mid);
    let ends = silent.push(after);
    assert forall|i: int| 0 <= i < n implies {
        &&& recv_attempt(#[trigger] ends[i], RecvOutcome::<M>::Timeout, ends[i + 1])
        &&& frames_read(ends[i + 1], frames_played, watch.last_frames)
    } by {
        assert(ends[i] == silent[i]);
        assert(ends[i + 1] == silent[i + 1]);
    }
    ends
}

/// Silence adds up.
proof fn lemma_silence(watch: StallWatch, n: nat)
    requires
        watch.stalled_ms + n * 50 < 2000,
    ensures
        after_silence(watch, n).last_frames == watch.last_frames,
        after_silence(watch, n).stalled_ms == watch.stalled_ms + n * 50,
    decreases n,
{
    if n > 0 {
        lemma_silence(watch, (n - 1) as nat);
    }
}

/// Whether a watch tells what the attempts of a wait, of which all but the last have timed out, have
/// seen of the playhead.
pub open spec fn has_watched(
    before: StallWatch,
    attempts: int,
    timed_out: bool,
    frames: u64,
    after: StallWatch,
) -> bool {
    let silence = before.stalled_ms + (attempts - 1) * 50;
    &&& !timed_out ==> after.last_frames == before.last_frames && after.stalled_ms == silence
    &&& timed_out && frames == before.last_frames ==> {
        &&& after.last_frames == frames
        &&& after.stalled_ms == silence + 50
    }
    &&& timed_out && frames != before.last_frames ==> {
        &&& after.last_frames == frames
        &&& after.stalled_ms == 0
    }
}

/// Sending a message tries the same message until it is taken, nobody is there to take it, the
/// playhead has moved, or it has stood still for the whole grace period; which of these it was is
/// told. Only the last closes the context. A message that is still to be sent comes back as it is.
pub proof fn law_message_is_tried_until_a_verdict<P, H>(
    context: &mut ConcreteBaseAudioContext<P, H>,
    sender: crossbeam_channel::Sender<ControlMessage<P>>,
    frames_played: &std::sync::atomic::AtomicU64,
    watch: &mut StallWatch,
    msg: ControlMessage<P>,
    r: (SendProgress<P>, crossbeam_channel::Sender<ControlMessage<P>>),
)
    requires
        (*watch).stalled_ms < 2000,
        call_ensures(
            ConcreteBaseAudioContext::<P, H>::send_to_render_thread,
            (context, sender, frames_played, watch, msg),
            r,
        ),
    ensures
        r.0 matches SendProgress::Pending(returned) ==> returned == msg,
        closed_if(r.0 is Stalled, old(context)@, final(context)@),
        exists|
            ends: Seq<crossbeam_channel::Sender<ControlMessage<P>>>,
            outcome: SendOutcome<ControlMessage<P>>,
            frames: u64,
        |
            {
                let w = *old(watch);
                let attempts = ends.len() - 1;
                &&& #[trigger] sends(ends, frames_played, *old(watch), msg, outcome, frames)
                &&& ends[0] == sender
                &&& ends.last() == r.1
                &&& r.0 is Sent <==> outcome is Sent
                &&& r.0 is Discarded <==> outcome is Disconnected
                &&& r.0 is Pending <==> outcome is Timeout && frames != w.last_frames
                &&& r.0 is Stalled <==> outcome is Timeout && frames == w.last_frames
                    && w.stalled_ms + attempts * 50 >= 2000
                &&& has_watched(w, attempts, outcome is Timeout, frames, *final(watch))
            },
{
    let w = *watch;
    let (n, outcome, frames) = choose|
        n: nat,
        outcome: SendOutcome<ControlMessage<P>>,
        frames: u64,
    |
        {
            let before = after_silence(w, n);
            &&& #[trigger] send_polls(sender, frames_played, w, msg, n, outcome, frames, r.1)
            &&& send_step(before, outcome, frames) == PollStep::<_, ControlMessage<P>>::Done(r.0)
            &&& *final(watch) == (if outcome is Timeout {
                before.after(frames)
            } else {
                before
            })
        };
    lemma_silence(w, n);
    let ends = lemma_sends(sender, frames_played, w, msg, n, outcome, frames, r.1);
    assert(sends(ends, frames_played, w, msg, outcome, frames));
}

/// Waiting for an acknowledgement goes on until it comes, nobody is there to send it, the playhead has
/// moved, or it has stood still for the whole grace period; only the last is a failure, and closes the
/// context.
pub proof fn law_acknowledgement_is_awaited_until_a_verdict<P, H>(
    context: &mut ConcreteBaseAudioContext<P, H>,
    receiver: crossbeam_channel::Receiver<()>,
    frames_played: &std::sync::atomic::AtomicU64,
    watch: &mut StallWatch,
    r: (Option<bool>, crossbeam_channel::Receiver<()>),
)
    requires
        (*watch).stalled_ms < 2000,
        call_ensures(
            ConcreteBaseAudioContext::<P, H>::wait_for_render_thread,
            (context, receiver, frames_played, watch),
            r,
        ),
    ensures
        closed_if(r.0 == Some(false), old(context)@, final(context)@),
        exists|ends: Seq<crossbeam_channel::Receiver<()>>, outcome: RecvOutcome<()>, frames: u64|
            {
                let w = *old(watch);
                let attempts = ends.len() - 1;
                &&& #[trigger] receives(ends, frames_played, *old(watch), outcome, frames)
                &&& ends[0] == receiver
                &&& ends.last() == r.1
                &&& r.0 == Some(true) <==> !(outcome is Timeout)
                &&& r.0 is None <==> outcome is Timeout && frames != w.last_frames
                &&& r.0 == Some(false) <==> outcome is Timeout && frames == w.last_frames
                    && w.stalled_ms + attempts * 50 >= 2000
                &&& has_watched(w, attempts, outcome is Timeout, frames, *final(watch))
            },
{
    let w = *watch;
    let (n, outcome, frames) = choose|n: nat, outcome: RecvOutcome<()>, frames: u64|
        {
            let before = after_silence(w, n);
            &&& #[trigger] recv_polls(receiver, frames_played, w, n, outcome, frames, r.1)
            &&& wait_step(before, outcome, frames) == PollStep::<_, ()>::Done(r.0)
            &&& *final(watch) == (if outcome is Timeout {
                before.after(frames)
            } else {
                before
            })
        };
    lemma_silence(w, n);
    let ends = lemma_receives(receiver, frames_played, w, n, outcome, frames, r.1);
    assert(receives(ends, frames_played, w, outcome, frames));
}

/// Waiting for a payload goes on until it comes, nobody is there to send it, the playhead has moved,
/// or it has stood still for the whole grace period. The payload that came is handed out as it is. A
/// lost one closes the context.
pub proof fn law_payload_is_awaited_until_a_verdict<P, H, T>(
    context: &mut ConcreteBaseAudioContext<P, H>,
    receiver: crossbeam_channel::Receiver<T>,
    frames_played: &std::sync::atomic::AtomicU64,
    watch: &mut StallWatch,
    r: (ReplyProgress<T>, crossbeam_channel::Receiver<T>),
)
    requires
        (*watch).stalled_ms < 2000,
        call_ensures(
            ConcreteBaseAudioContext::<P, H>::recv_from_render_thread::<T>,
            (context, receiver, frames_played, watch),
            r,
        ),
    ensures
        closed_if(r.0 is Lost, old(context)@, final(context)@),
        exists|ends: Seq<crossbeam_channel::Receiver<T>>, outcome: RecvOutcome<T>, frames: u64|
            {
                let w = *old(watch);
                let attempts = ends.len() - 1;
                &&& #[trigger] receives(ends, frames_played, *old(watch), outcome, frames)
                &&& ends[0] == receiver
                &&& ends.last() == r.1
                &&& outcome matches RecvOutcome::Received(v) ==> r.0 == ReplyProgress::Received(v)
                &&& r.0 is Received ==> outcome is Received
                &&& r.0 is Pending <==> outcome is Timeout && frames != w.last_frames
                &&& r.0 is Lost <==> outcome is Disconnected || (outcome is Timeout && frames
                    == w.last_frames && w.stalled_ms + attempts * 50 >= 2000)
                &&& has_watched(w, attempts, outcome is Timeout, frames, *final(watch))
            },
{
    let w = *watch;
    let (n, outcome, frames) = choose|n: nat, outcome: RecvOutcome<T>, frames: u64|
        {
            let before = after_silence(w, n);
            &&& #[trigger] recv_polls(receiver, frames_played, w, n, outcome, frames, r.1)
            &&& recv_step(before, outcome, frames) == PollStep::<_, ()>::Done(r.0)
            &&& *final(watch) == (if outcome is Timeout {
                before.after(frames)
            } else {
                before
            })
        };
    lemma_silence(w, n);
    let ends = lemma_receives(receiver, frames_played, w, n, outcome, frames, r.1);
    assert(receives(ends, frames_played, w, outcome, frames));
}

/// Whether the wait for room for a message has ended with an outcome: it starts with a look at the
/// playhead, and goes on with attempts to send that very message.
pub open spec fn waits<P>(
    before: crossbeam_channel::Sender<ControlMessage<P>>,
    frames_played: &std::sync::atomic::AtomicU64,
    o: OutgoingView<P>,
    msg: ControlMessage<P>,
    start: StallWatch,
    ends: Seq<crossbeam_channel::Sender<ControlMessage<P>>>,
    outcome: SendOutcome<ControlMessage<P>>,
    frames: u64,
    after: crossbeam_channel::Sender<ControlMessage<P>>,
) -> bool {
    &&& msg@ == o.message
    &&& start.stalled_ms == 0
    &&& frames_read(before, frames_played, start.last_frames)
    &&& sends(ends, frames_played, start, msg, outcome, frames)
    &&& ends[0] == before
    &&& ends.last() == after
}

/// Whether a message has got through: it was taken, or nobody is there to take it.
pub open spec fn gets_through<P>(
    before: crossbeam_channel::Sender<ControlMessage<P>>,
    frames_played: &std::sync::atomic::AtomicU64,
    o: OutgoingView<P>,
    after: crossbeam_channel::Sender<ControlMessage<P>>,
) -> bool {
    exists|
        msg: ControlMessage<P>,
        start: StallWatch,
        ends: Seq<crossbeam_channel::Sender<ControlMessage<P>>>,
        outcome: SendOutcome<ControlMessage<P>>,
        frames: u64,
    | #[trigger]
        waits(before, frames_played, o, msg, start, ends, outcome, frames, after) && !(
        outcome is Timeout)
}

/// Whether there was no room for a message until the wait for it was over: because of a stall, after
/// 2000 milliseconds in which the playhead stood still, or because the playhead has moved.
pub open spec fn finds_no_room<P>(
    before: crossbeam_channel::Sender<ControlMessage<P>>,
    frames_played: &std::sync::atomic::AtomicU64,
    o: OutgoingView<P>,
    stalled: bool,
    after: crossbeam_channel::Sender<ControlMessage<P>>,
) -> bool {
    exists|
        msg: ControlMessage<P>,
        start: StallWatch,
        ends: Seq<crossbeam_channel::Sender<ControlMessage<P>>>,
        outcome: SendOutcome<ControlMessage<P>>,
        frames: u64,
    |
        {
            &&& #[trigger] waits(before, frames_played, o, msg, start, ends, outcome, frames, after)
            &&& outcome is Timeout
            &&& stalled ==> frames == start.last_frames && (ends.len() - 1) * 50 >= 2000
            &&& !stalled ==> frames != start.last_frames
        }
}

/// Whether messages are tried one after the other, with nothing else sent in between. Each gets
/// through, unless stalls are put up with.
pub open spec fn are_tried<P>(
    stops: Seq<crossbeam_channel::Sender<ControlMessage<P>>>,
    frames_played: &std::sync::atomic::AtomicU64,
    msgs: Seq<OutgoingView<P>>,
    put_up_with_stalls: bool,
) -> bool {
    &&& stops.len() == msgs.len() + 1
    &&& forall|i: int|
        0 <= i < msgs.len() ==> gets_through(
            #[trigger] stops[i],
            frames_played,
            msgs[i],
            stops[i + 1],
        ) || (put_up_with_stalls && finds_no_room(
            stops[i],
            frames_played,
            msgs[i],
            true,
            stops[i + 1],
        ))
}

/// Whether sending ends there: with nothing left, or at a message for which there is no room although
/// the playhead moves.
pub open spec fn ends_there<P>(
    before: crossbeam_channel::Sender<ControlMessage<P>>,
    frames_played: &std::sync::atomic::AtomicU64,
    left: Seq<OutgoingView<P>>,
    after: crossbeam_channel::Sender<ControlMessage<P>>,
) -> bool {
    &&& left.len() == 0 ==> after == before
    &&& left.len() > 0 ==> finds_no_room(before, frames_played, left[0], false, after)
}

proof fn lemma_gets_through<P>(
    before: crossbeam_channel::Sender<ControlMessage<P>>,
    frames_played: &std::sync::atomic::AtomicU64,
    o: OutgoingView<P>,
    after: crossbeam_channel::Sender<ControlMessage<P>>,
)
    requires
        handed_over(before, frames_played, o, after),
    ensures
        gets_through(before, frames_played, o, after),
{
    let (msg, watch, n, outcome, frames) = choose|
        msg: ControlMessage<P>,
        watch: StallWatch,
        n: nat,
        outcome: SendOutcome<ControlMessage<P>>,
        frames: u64,
    | #[trigger]
        waited(before, frames_played, o, msg, watch, n, outcome, frames, after) && !(
        outcome is Timeout);
    let ends = lemma_sends(before, frames_played, watch, msg, n, outcome, frames, after);
    assert(waits(before, frames_played, o, msg, watch, ends, outcome, frames, after));
}

proof fn lemma_finds_no_room<P>(
    before: crossbeam_channel::Sender<ControlMessage<P>>,
    frames_played: &std::sync::atomic::AtomicU64,
    o: OutgoingView<P>,
    stalled: bool,
    after: crossbeam_channel::Sender<ControlMessage<P>>,
)
    requires
        polled(
            before,
            frames_played,
            o,
            if stalled {
                Liveness::Stalled
            } else {
                Liveness::Progressing
            },
            after,
        ),
    ensures
        finds_no_room(before, frames_played, o, stalled, after),
{
    let liveness = if stalled {
        Liveness::Stalled
    } else {
        Liveness::Progressing
    };
    let (msg, watch, n, outcome, frames) = choose|
        msg: ControlMessage<P>,
        watch: StallWatch,
        n: nat,
        outcome: SendOutcome<ControlMessage<P>>,
        frames: u64,
    |
        {
            &&& #[trigger] waited(before, frames_played, o, msg, watch, n, outcome, frames, after)
            &&& outcome == SendOutcome::Timeout(msg)
            &&& after_silence(watch, n).judge(frames) == liveness
        };
    lemma_silence(watch, n);
    let ends = lemma_sends(before, frames_played, watch, msg, n, outcome, frames, after);
    assert(waits(before, frames_played, o, msg, watch, ends, outcome, frames, after));
}

proof fn lemma_tried<P>(
    before: crossbeam_channel::Sender<ControlMessage<P>>,
    frames_played: &std::sync::atomic::AtomicU64,
    msgs: Seq<OutgoingView<P>>,
    after: crossbeam_channel::Sender<ControlMessage<P>>,
) -> (stops: Seq<crossbeam_channel::Sender<ControlMessage<P>>>)
    requires
        tried_in_order(before, frames_played, msgs, after),
    ensures
        stops[0] == before,
        stops[msgs.len() as int] == after,
        are_tried(stops, frames_played, msgs, true),
    decreases msgs.len(),
{
    if msgs.len() == 0 {
        seq![before]
    } else {
        let mid = choose|mid: crossbeam_channel::Sender<ControlMessage<P>>|
            {
                &&& #[trigger] tried(mid, frames_played, msgs.last(), after)
                &&& tried_in_order(before, frames_played, msgs.drop_last(), mid)
            };
        let earlier = lemma_tried(before, frames_played, msgs.drop_last(), mid);
        let stops = earlier.push(after);
        if handed_over(mid, frames_played, msgs.last(), after) {
            lemma_gets_through(mid, frames_played, msgs.last(), after);
        } else {
            lemma_finds_no_room(mid, frames_played, msgs.last(), true, after);
        }
        assert forall|i: int| 0 <= i < msgs.len() implies gets_through(
            #[trigger] stops[i],
            frames_played,
            msgs[i],
            stops[i + 1],
        ) || finds_no_room(stops[i], frames_played, msgs[i], true, stops[i + 1]) by {
            assert(stops[i] == earlier[i]);
            if i < msgs.len() - 1 {
                assert(stops[i + 1] == earlier[i + 1]);
                assert(msgs.drop_last()[i] == msgs[i]);
            }
        }
        stops
    }
}

proof fn lemma_sent<P>(
    before: crossbeam_channel::Sender<ControlMessage<P>>,
    frames_played: &std::sync::atomic::AtomicU64,
    msgs: Seq<OutgoingView<P>>,
    after: crossbeam_channel::Sender<ControlMessage<P>>,
) -> (stops: Seq<crossbeam_channel::Sender<ControlMessage<P>>>)
    requires
        sent_in_order(before, frames_played, msgs, after),
    ensures
        stops[0] == before,
        stops[msgs.len() as int] == after,
        are_tried(stops, frames_played, msgs, false),
    decreases msgs.len(),
{
    if msgs.len() == 0 {
        seq![before]
    } else {
        let mid = choose|mid: crossbeam_channel::Sender<ControlMessage<P>>|
            {
                &&& #[trigger] handed_over(mid, frames_played, msgs.last(), after)
                &&& sent_in_order(before, frames_played, msgs.drop_last(), mid)
            };
        let earlier = lemma_sent(before, frames_played, msgs.drop_last(), mid);
        let stops = earlier.push(after);
        lemma_gets_through(mid, frames_played, msgs.last(), after);
        assert forall|i: int| 0 <= i < msgs.len() implies gets_through(
            #[trigger] stops[i],
            frames_played,
            msgs[i],
            stops[i + 1],
        ) by {
            assert(stops[i] == earlier[i]);
            if i < msgs.len() - 1 {
                assert(stops[i + 1] == earlier[i + 1]);
                assert(msgs.drop_last()[i] == msgs[i]);
            }
        }
        stops
    }
}

proof fn lemma_ends_there<P>(
    before: crossbeam_channel::Sender<ControlMessage<P>>,
    frames_played: &std::sync::atomic::AtomicU64,
    left: Seq<OutgoingView<P>>,
    after: crossbeam_channel::Sender<ControlMessage<P>>,
)
    requires
        stopped_at(before, frames_played, left, after),
    ensures
        ends_there(before, frames_played, left, after),
{
    if left.len() > 0 {
        lemma_finds_no_room(before, frames_played, left[0], false, after);
    }
}

/// Whether an outbox has been sent without a stall: its first messages got through in their order,
/// and the others are left in theirs.
pub open spec fn is_sent<P>(
    stops: Seq<crossbeam_channel::Sender<ControlMessage<P>>>,
    frames_played: &std::sync::atomic::AtomicU64,
    outbox: Seq<OutgoingView<P>>,
    left: Seq<OutgoingView<P>>,
    after: crossbeam_channel::Sender<ControlMessage<P>>,
) -> bool {
    let gone = outbox.len() - left.len();
    &&& 0 <= gone
    &&& left == outbox.skip(gone)
    &&& are_tried(stops, frames_played, outbox.take(gone), false)
    &&& ends_there(stops.last(), frames_played, left, after)
}

/// Whether an outbox has met a stall: what was before the message at position `k` got through in its
/// order, then the render thread has stalled on that message, which is dropped. Of what was behind it,
/// the messages that are sent even then were tried in their order, up to those that are left; the
/// others are dropped.
pub open spec fn is_stalled<P>(
    stops: Seq<crossbeam_channel::Sender<ControlMessage<P>>>,
    tries: Seq<crossbeam_channel::Sender<ControlMessage<P>>>,
    frames_played: &std::sync::atomic::AtomicU64,
    outbox: Seq<OutgoingView<P>>,
    k: int,
    left: Seq<OutgoingView<P>>,
    after: crossbeam_channel::Sender<ControlMessage<P>>,
) -> bool {
    let rest = outbox.skip(k + 1).filter(|o: OutgoingView<P>| o.even_after_stall);
    let done = rest.len() - left.len();
    &&& 0 <= k < outbox.len()
    &&& are_tried(stops, frames_played, outbox.take(k), false)
    &&& finds_no_room(stops.last(), frames_played, outbox[k], true, tries[0])
    &&& 0 <= done
    &&& left == rest.skip(done)
    &&& are_tried(tries, frames_played, rest.take(done), true)
    &&& ends_there(tries.last(), frames_played, left, after)
}

/// Sending what is on its way to the render thread hands the messages over one by one, the oldest
/// first, and tells whether none is left. Nothing but a stall drops a message or closes the context,
/// and nothing else about the context changes.
pub proof fn law_outbox_is_sent_in_order<P, H>(
    context: &mut ConcreteBaseAudioContext<P, H>,
    sender: crossbeam_channel::Sender<ControlMessage<P>>,
    frames_played: &std::sync::atomic::AtomicU64,
    r: (bool, crossbeam_channel::Sender<ControlMessage<P>>),
)
    requires
        call_ensures(
            ConcreteBaseAudioContext::<P, H>::flush,
            (context, sender, frames_played),
            r,
        ),
    ensures
        r.0 <==> final(context)@.outbox.len() == 0,
        ({
            let outbox = old(context)@.outbox;
            let left = final(context)@.outbox;
            let unsent = BaseView { outbox: left, ..old(context)@ };
            ||| final(context)@ == unsent && exists|
                stops: Seq<crossbeam_channel::Sender<ControlMessage<P>>>,
            | #[trigger]
                is_sent(stops, frames_played, outbox, left, r.1) && stops[0] == sender
            ||| turns(unsent, final(context)@, AudioContextState::Closed) && exists|
                stops: Seq<crossbeam_channel::Sender<ControlMessage<P>>>,
                tries: Seq<crossbeam_channel::Sender<ControlMessage<P>>>,
                k: int,
            | #[trigger]
                is_stalled(stops, tries, frames_played, outbox, k, left, r.1) && stops[0] == sender
        }),
{
    let outbox = (*context)@.outbox;
    let left = final(context)@.outbox;
    let unsent = BaseView { outbox: left, ..(*context)@ };
    if final(context)@ == unsent && sent_without_stall(sender, frames_played, outbox, left, r.1) {
        let gone = outbox.len() - left.len();
        let mid = choose|mid: crossbeam_channel::Sender<ControlMessage<P>>|
            {
                &&& #[trigger] sent_in_order(sender, frames_played, outbox.take(gone), mid)
                &&& stopped_at(mid, frames_played, left, r.1)
            };
        let stops = lemma_sent(sender, frames_played, outbox.take(gone), mid);
        lemma_ends_there(mid, frames_played, left, r.1);
        assert(is_sent(stops, frames_played, outbox, left, r.1));
    } else {
        let k = choose|k: int| #[trigger]
            stalled_at(sender, frames_played, outbox, k, left, r.1);
        let rest = outbox.skip(k + 1).filter(survives_stall());
        assert(survives_stall::<P>() =~= |o: OutgoingView<P>| o.even_after_stall);
        let (stall, mid) = choose|
            stall: crossbeam_channel::Sender<ControlMessage<P>>,
            mid: crossbeam_channel::Sender<ControlMessage<P>>,
        |
            {
                &&& #[trigger] stalled_on(sender, frames_played, outbox, k, stall)
                &&& #[trigger] tried_after_stall(stall, frames_played, rest, left, mid)
                &&& stopped_at(mid, frames_played, left, r.1)
            };
        let first = choose|first: crossbeam_channel::Sender<ControlMessage<P>>|
            {
                &&& #[trigger] sent_in_order(sender, frames_played, outbox.take(k), first)
                &&& polled(first, frames_played, outbox[k], Liveness::Stalled, stall)
            };
        let stops = lemma_sent(sender, frames_played, outbox.take(k), first);
        lemma_finds_no_room(first, frames_played, outbox[k], true, stall);
        let done = rest.len() - left.len();
        let tries = lemma_tried(stall, frames_played, rest.take(done), mid);
        lemma_ends_there(mid, frames_played, left, r.1);
        assert(is_stalled(stops, tries, frames_played, outbox, k, left, r.1));
    }
}

} // verus!
