//! Waiting for the render thread without ever hanging on a dead one.
//!
//! The control channel to the render thread is bounded, and synchronous requests wait for a reply.
//! Once the render thread stops (the device was unplugged, the driver died), a plain wait would
//! block the control thread forever. So the wait is cut into polls, and after each poll the number
//! of frames played tells whether the render thread is alive: as long as it advances, the wait goes
//! on; if it stands still for a whole grace period, the context is closed.

use vstd::prelude::*;
use crate::concrete_base::{BaseView, ConcreteBaseAudioContext, survives_stall};
use crate::events::AudioContextState;
use crate::message::{ControlMessage, Outgoing, OutgoingView};
use crate::seqs::{lemma_filter_all, lemma_filter_contains_iff};

verus! {

/// Poll interval in milliseconds, much coarser than a render quantum to keep wakeups cheap.
pub const POLL_MS: u64 = 50;

/// Zero playhead progress for this many milliseconds means that the render side has stalled.
pub const STALL_GRACE_MS: u64 = 2000;

/// `crossbeam_channel::Sender`: the sending half of a channel to another thread.
#[verifier::external_type_specification]
#[verifier::external_body]
#[verifier::reject_recursive_types(T)]
pub struct ExSender<T>(crossbeam_channel::Sender<T>);

/// `crossbeam_channel::Receiver`: the receiving half of a channel from another thread.
#[verifier::external_type_specification]
#[verifier::external_body]
#[verifier::reject_recursive_types(T)]
pub struct ExReceiver<T>(crossbeam_channel::Receiver<T>);

/// What came of one attempt to send a message.
pub enum SendOutcome<M> {
    Sent,
    /// the channel stayed full
    Timeout(M),
    /// there is no receiver any more
    Disconnected(M),
}

/// What came of one attempt to receive a message.
pub enum RecvOutcome<M> {
    Received(M),
    /// the channel stayed empty
    Timeout,
    /// the channel is empty, and there is no sender any more
    Disconnected,
}

/// `crossbeam_channel::Sender::send_timeout`: waits for a limited time until a message is sent. An
/// unsent message is handed back. The sender goes in as it is before the attempt, and comes back as
/// it is after it. Which outcome it is depends on the other side of the channel and on time, and is
/// not claimed. A time so long that no clock can tell its end would be no limit.
#[verifier::external_body]
fn send_timeout<M>(sender: crossbeam_channel::Sender<M>, msg: M, millis: u64) -> (r: (
    SendOutcome<M>,
    crossbeam_channel::Sender<M>,
))
    requires
        millis <= STALL_GRACE_MS,
    ensures
        r.0 matches SendOutcome::Timeout(returned) ==> returned == msg,
        r.0 matches SendOutcome::Disconnected(returned) ==> returned == msg,
{
    let outcome = match sender.send_timeout(msg, std::time::Duration::from_millis(millis)) {
        Ok(()) => SendOutcome::Sent,
        Err(crossbeam_channel::SendTimeoutError::Timeout(m)) => SendOutcome::Timeout(m),
        Err(crossbeam_channel::SendTimeoutError::Disconnected(m)) => SendOutcome::Disconnected(m),
    };
    (outcome, sender)
}

/// `crossbeam_channel::Receiver::recv_timeout`: waits for a limited time until a message is
/// received. The receiver goes in as it is before the attempt, and comes back as it is after it.
/// What it returns depends on the other side of the channel and on time, and is not claimed.
#[verifier::external_body]
fn recv_timeout<M>(receiver: crossbeam_channel::Receiver<M>, millis: u64) -> (r: (
    RecvOutcome<M>,
    crossbeam_channel::Receiver<M>,
))
    requires
        millis <= STALL_GRACE_MS,
{
    let outcome = match receiver.recv_timeout(std::time::Duration::from_millis(millis)) {
        Ok(m) => RecvOutcome::Received(m),
        Err(crossbeam_channel::RecvTimeoutError::Timeout) => RecvOutcome::Timeout,
        Err(crossbeam_channel::RecvTimeoutError::Disconnected) => RecvOutcome::Disconnected,
    };
    (outcome, receiver)
}

/// Whether one attempt to send a message, of one poll interval, on a sender as it is `before`, can
/// have an outcome and leave the sender as it is `after`.
pub closed spec fn send_attempt<M>(
    before: crossbeam_channel::Sender<M>,
    msg: M,
    outcome: SendOutcome<M>,
    after: crossbeam_channel::Sender<M>,
) -> bool {
    call_ensures(send_timeout::<M>, (before, msg, POLL_MS), (outcome, after))
}

/// Whether one attempt to receive a message, of one poll interval, on a receiver as it is `before`,
/// can have an outcome and leave the receiver as it is `after`.
pub closed spec fn recv_attempt<M>(
    before: crossbeam_channel::Receiver<M>,
    outcome: RecvOutcome<M>,
    after: crossbeam_channel::Receiver<M>,
) -> bool {
    call_ensures(recv_timeout::<M>, (before, POLL_MS), (outcome, after))
}

/// Looks at the number of frames played. The end of a channel that the wait is about comes along as
/// it is at that moment, so that contracts can tell between which attempts the look was taken.
fn look<H>(_at: &H, frames_played: &std::sync::atomic::AtomicU64) -> (frames: u64)
    ensures
        call_ensures(
            std::sync::atomic::AtomicU64::load,
            (frames_played, std::sync::atomic::Ordering::Relaxed),
            frames,
        ),
{
    frames_played.load(std::sync::atomic::Ordering::Relaxed)
}

/// Whether a look at the number of frames played can give `frames`, taken when the end of a channel
/// is as given.
pub closed spec fn frames_read<H>(
    at: H,
    frames_played: &std::sync::atomic::AtomicU64,
    frames: u64,
) -> bool {
    call_ensures(look::<H>, (&at, frames_played), frames)
}

/// A look at the number of frames played reads the counter, whatever it is taken for.
pub proof fn law_look_reads_the_counter<H>(
    at: H,
    frames_played: &std::sync::atomic::AtomicU64,
    frames: u64,
)
    requires
        frames_read(at, frames_played, frames),
    ensures
        call_ensures(
            std::sync::atomic::AtomicU64::load,
            (frames_played, std::sync::atomic::Ordering::Relaxed),
            frames,
        ),
{
}

/// One attempt to send a message is one wait for room in the channel, of 50 milliseconds.
proof fn law_attempt_to_send_is_one_poll<M>(
    before: crossbeam_channel::Sender<M>,
    msg: M,
    outcome: SendOutcome<M>,
    after: crossbeam_channel::Sender<M>,
)
    requires
        send_attempt(before, msg, outcome, after),
    ensures
        call_ensures(send_timeout::<M>, (before, msg, 50u64), (outcome, after)),
{
}

/// One attempt to receive a message is one wait for it, of 50 milliseconds.
proof fn law_attempt_to_receive_is_one_poll<M>(
    before: crossbeam_channel::Receiver<M>,
    outcome: RecvOutcome<M>,
    after: crossbeam_channel::Receiver<M>,
)
    requires
        recv_attempt(before, outcome, after),
    ensures
        call_ensures(recv_timeout::<M>, (before, 50u64), (outcome, after)),
{
}

/// No attempt to send a message loses it: one that is not sent is handed back.
pub proof fn law_unsent_message_is_handed_back<M>(
    before: crossbeam_channel::Sender<M>,
    msg: M,
    outcome: SendOutcome<M>,
    after: crossbeam_channel::Sender<M>,
)
    requires
        send_attempt(before, msg, outcome, after),
    ensures
        outcome matches SendOutcome::Timeout(returned) ==> returned == msg,
        outcome matches SendOutcome::Disconnected(returned) ==> returned == msg,
{
}

/// What a poll that timed out says of the render thread.
#[derive(Clone, Copy, Debug, PartialEq, Eq, Structural)]
pub enum Liveness {
    /// The playhead has moved: plain back-pressure
    Progressing,
    /// The playhead stands still, but not for long enough to give up
    Waiting,
    /// The playhead has stood still for the whole grace period
    Stalled,
}

/// Keeps an eye on the playhead during a wait.
#[derive(Clone, Copy, Debug, PartialEq, Eq, Structural)]
pub struct StallWatch {
    /// number of frames played, when it last changed
    pub last_frames: u64,
    /// for how many milliseconds it has not changed
    pub stalled_ms: u64,
}

impl StallWatch {
    /// The grace period is not over.
    pub open spec fn wf(self) -> bool {
        self.stalled_ms < STALL_GRACE_MS
    }

    /// What a poll that timed out with this number of frames played says of the render thread.
    pub open spec fn judge(self, frames: u64) -> Liveness {
        if frames != self.last_frames {
            Liveness::Progressing
        } else if self.stalled_ms + POLL_MS < STALL_GRACE_MS {
            Liveness::Waiting
        } else {
            Liveness::Stalled
        }
    }

    /// The watch after such a poll.
    pub open spec fn after(self, frames: u64) -> StallWatch {
        StallWatch {
            last_frames: frames,
            stalled_ms: if frames != self.last_frames {
                0
            } else {
                (self.stalled_ms + POLL_MS) as u64
            },
        }
    }

    /// Starts to watch at the given number of frames played.
    pub fn new(frames: u64) -> (r: Self)
        ensures
            r == (StallWatch { last_frames: frames, stalled_ms: 0 }),
            r.wf(),
    {
        StallWatch { last_frames: frames, stalled_ms: 0 }
    }

    /// Starts to watch at the current number of frames played, before the first attempt on the given
    /// end of a channel.
    pub fn start<H>(at: &H, frames_played: &std::sync::atomic::AtomicU64) -> (r: Self)
        ensures
            frames_read(*at, frames_played, r.last_frames),
            r.stalled_ms == 0,
            r.wf(),
    {
        StallWatch::new(look(at, frames_played))
    }

    /// Judges a poll that timed out.
    pub fn on_timeout(&mut self, frames: u64) -> (r: Liveness)
        requires
            old(self).wf(),
        ensures
            r == old(self).judge(frames),
            *final(self) == old(self).after(frames),
            r != Liveness::Stalled ==> final(self).wf(),
    {
        if frames != self.last_frames {
            self.last_frames = frames;
            self.stalled_ms = 0;
            return Liveness::Progressing;
        }
        self.stalled_ms += POLL_MS;
        if self.stalled_ms < STALL_GRACE_MS {
            Liveness::Waiting
        } else {
            Liveness::Stalled
        }
    }
}

/// The watch after `n` polls that timed out while the playhead stood still.
pub open spec fn after_silence(w: StallWatch, n: nat) -> StallWatch
    decreases n,
{
    if n == 0 {
        w
    } else {
        after_silence(w, (n - 1) as nat).after(w.last_frames)
    }
}

/// A render thread is given up exactly when the playhead has stood still for the whole grace
/// period: after any smaller number of polls the wait goes on.
pub proof fn law_grace_period(frames: u64, n: nat)
    requires
        n * POLL_MS < STALL_GRACE_MS,
    ensures
        ({
            let w = after_silence(StallWatch { last_frames: frames, stalled_ms: 0 }, n);
            &&& w.stalled_ms == n * POLL_MS
            &&& w.judge(frames) == (if (n + 1) * POLL_MS < STALL_GRACE_MS {
                Liveness::Waiting
            } else {
                Liveness::Stalled
            })
        }),
    decreases n,
{
    if n > 0 {
        law_grace_period(frames, (n - 1) as nat);
        lemma_silence_keeps_frames(StallWatch { last_frames: frames, stalled_ms: 0 }, (n - 1) as nat);
    }
    lemma_silence_keeps_frames(StallWatch { last_frames: frames, stalled_ms: 0 }, n);
}

/// While the playhead stands still the watch remembers where.
proof fn lemma_silence_keeps_frames(w: StallWatch, n: nat)
    ensures
        after_silence(w, n).last_frames == w.last_frames,
    decreases n,
{
    if n > 0 {
        lemma_silence_keeps_frames(w, (n - 1) as nat);
    }
}

/// While the playhead stands still the watch adds up the polls.
proof fn lemma_silence_adds_up(w: StallWatch, n: nat)
    requires
        w.stalled_ms + n * POLL_MS < STALL_GRACE_MS,
    ensures
        after_silence(w, n).stalled_ms == w.stalled_ms + n * POLL_MS,
    decreases n,
{
    if n > 0 {
        lemma_silence_adds_up(w, (n - 1) as nat);
        lemma_silence_keeps_frames(w, (n - 1) as nat);
    }
}

/// A render thread whose playhead moves is never given up: any progress starts a new grace period.
pub proof fn law_progress_restarts_grace_period(w: StallWatch, frames: u64)
    requires
        frames != w.last_frames,
    ensures
        w.judge(frames) == Liveness::Progressing,
        w.after(frames) == (StallWatch { last_frames: frames, stalled_ms: 0 }),
{
}

/// What to do after one poll.
pub enum PollStep<D, K> {
    /// the wait is over, for now
    Done(D),
    /// poll again
    Again(K),
}

/// What came of sending a control message.
pub enum SendProgress<P> {
    /// the render thread has it in its channel
    Sent,
    /// the render thread is closed, the message is discarded
    Discarded,
    /// the channel is full but the render thread is progressing: go on with this message
    Pending(ControlMessage<P>),
    /// the render thread has stalled: the context is closed, the message is dropped
    Stalled,
}

/// What came of waiting for a reply.
pub enum ReplyProgress<T> {
    Received(T),
    /// the render thread is gone, and so is the reply
    Lost,
    /// no reply yet, but the render thread is progressing: go on waiting
    Pending,
}

/// What follows from one attempt to send a message.
pub open spec fn send_step<P>(
    watch: StallWatch,
    outcome: SendOutcome<ControlMessage<P>>,
    frames: u64,
) -> PollStep<SendProgress<P>, ControlMessage<P>> {
    match outcome {
        SendOutcome::Sent => PollStep::Done(SendProgress::Sent),
        SendOutcome::Disconnected(_) => PollStep::Done(SendProgress::Discarded),
        SendOutcome::Timeout(msg) => match watch.judge(frames) {
            Liveness::Progressing => PollStep::Done(SendProgress::Pending(msg)),
            Liveness::Waiting => PollStep::Again(msg),
            Liveness::Stalled => PollStep::Done(SendProgress::Stalled),
        },
    }
}

/// What follows from one attempt to receive an acknowledgement. A render thread that is gone leaves
/// nothing to wait for.
pub open spec fn wait_step(watch: StallWatch, outcome: RecvOutcome<()>, frames: u64) -> PollStep<
    Option<bool>,
    (),
> {
    match outcome {
        RecvOutcome::Received(_) => PollStep::Done(Some(true)),
        RecvOutcome::Disconnected => PollStep::Done(Some(true)),
        RecvOutcome::Timeout => match watch.judge(frames) {
            Liveness::Progressing => PollStep::Done(None),
            Liveness::Waiting => PollStep::Again(()),
            Liveness::Stalled => PollStep::Done(Some(false)),
        },
    }
}

/// What follows from one attempt to receive a payload.
pub open spec fn recv_step<T>(watch: StallWatch, outcome: RecvOutcome<T>, frames: u64) -> PollStep<
    ReplyProgress<T>,
    (),
> {
    match outcome {
        RecvOutcome::Received(v) => PollStep::Done(ReplyProgress::Received(v)),
        RecvOutcome::Disconnected => PollStep::Done(ReplyProgress::Lost),
        RecvOutcome::Timeout => match watch.judge(frames) {
            Liveness::Progressing => PollStep::Done(ReplyProgress::Pending),
            Liveness::Waiting => PollStep::Again(()),
            Liveness::Stalled => PollStep::Done(ReplyProgress::Lost),
        },
    }
}

/// `n` attempts in a row to send a message time out, and after each of them the playhead stands where
/// it stood.
pub open spec fn silent_sends<M>(
    before: crossbeam_channel::Sender<M>,
    frames_played: &std::sync::atomic::AtomicU64,
    last_frames: u64,
    msg: M,
    n: nat,
    after: crossbeam_channel::Sender<M>,
) -> bool
    decreases n,
{
    if n == 0 {
        before == after
    } else {
        &&& frames_read(after, frames_played, last_frames)
        &&& exists|mid: crossbeam_channel::Sender<M>|
            {
                &&& #[trigger] send_attempt(mid, msg, SendOutcome::Timeout(msg), after)
                &&& silent_sends(before, frames_played, last_frames, msg, (n - 1) as nat, mid)
            }
    }
}

/// A wait for room in the channel: within the grace period, `n` attempts in a row to send the message
/// time out while the playhead stands still, and the next one has the given outcome, where a timeout
/// is followed by a look at the playhead.
pub open spec fn send_polls<M>(
    before: crossbeam_channel::Sender<M>,
    frames_played: &std::sync::atomic::AtomicU64,
    watch: StallWatch,
    msg: M,
    n: nat,
    outcome: SendOutcome<M>,
    frames: u64,
    after: crossbeam_channel::Sender<M>,
) -> bool {
    &&& watch.stalled_ms + n * POLL_MS < STALL_GRACE_MS
    &&& outcome is Timeout ==> frames_read(after, frames_played, frames)
    &&& exists|mid: crossbeam_channel::Sender<M>|
        {
            &&& #[trigger] send_attempt(mid, msg, outcome, after)
            &&& silent_sends(before, frames_played, watch.last_frames, msg, n, mid)
        }
}

/// `n` attempts in a row to receive a message time out, and after each of them the playhead stands
/// where it stood.
pub open spec fn silent_receives<M>(
    before: crossbeam_channel::Receiver<M>,
    frames_played: &std::sync::atomic::AtomicU64,
    last_frames: u64,
    n: nat,
    after: crossbeam_channel::Receiver<M>,
) -> bool
    decreases n,
{
    if n == 0 {
        before == after
    } else {
        &&& frames_read(after, frames_played, last_frames)
        &&& exists|mid: crossbeam_channel::Receiver<M>|
            {
                &&& #[trigger] recv_attempt(mid, RecvOutcome::<M>::Timeout, after)
                &&& silent_receives(before, frames_played, last_frames, (n - 1) as nat, mid)
            }
    }
}

/// A wait for a message: within the grace period, `n` attempts in a row to receive it time out while
/// the playhead stands still, and the next one has the given outcome, where a timeout is followed by
/// a look at the playhead.
pub open spec fn recv_polls<M>(
    before: crossbeam_channel::Receiver<M>,
    frames_played: &std::sync::atomic::AtomicU64,
    watch: StallWatch,
    n: nat,
    outcome: RecvOutcome<M>,
    frames: u64,
    after: crossbeam_channel::Receiver<M>,
) -> bool {
    &&& watch.stalled_ms + n * POLL_MS < STALL_GRACE_MS
    &&& outcome is Timeout ==> frames_read(after, frames_played, frames)
    &&& exists|mid: crossbeam_channel::Receiver<M>|
        {
            &&& #[trigger] recv_attempt(mid, outcome, after)
            &&& silent_receives(before, frames_played, watch.last_frames, n, mid)
        }
}

/// Number of silent polls in a row after which a render thread is given up.
pub open spec fn polls_to_give_up() -> nat {
    (STALL_GRACE_MS / POLL_MS) as nat
}

/// A message is given up only after as many attempts in a row to send it as fill the whole grace
/// period: all of them have timed out, and after each the playhead stood where it stood when the
/// wait began.
pub proof fn law_send_is_given_up_after_grace_period<M>(
    before: crossbeam_channel::Sender<M>,
    frames_played: &std::sync::atomic::AtomicU64,
    watch: StallWatch,
    msg: M,
    n: nat,
    frames: u64,
    after: crossbeam_channel::Sender<M>,
)
    requires
        watch.stalled_ms == 0,
        send_polls(
            before,
            frames_played,
            watch,
            msg,
            n,
            SendOutcome::Timeout(msg),
            frames,
            after,
        ),
        after_silence(watch, n).judge(frames) == Liveness::Stalled,
    ensures
        silent_sends(before, frames_played, watch.last_frames, msg, polls_to_give_up(), after),
{
    lemma_silence_keeps_frames(watch, n);
    lemma_silence_adds_up(watch, n);
}

/// A reply is given up only after as many attempts in a row to receive it as fill the whole grace
/// period: all of them have timed out, and after each the playhead stood where it stood when the
/// wait began.
pub proof fn law_reply_is_given_up_after_grace_period<M>(
    before: crossbeam_channel::Receiver<M>,
    frames_played: &std::sync::atomic::AtomicU64,
    watch: StallWatch,
    n: nat,
    frames: u64,
    after: crossbeam_channel::Receiver<M>,
)
    requires
        watch.stalled_ms == 0,
        recv_polls(
            before,
            frames_played,
            watch,
            n,
            RecvOutcome::<M>::Timeout,
            frames,
            after,
        ),
        after_silence(watch, n).judge(frames) == Liveness::Stalled,
    ensures
        silent_receives(before, frames_played, watch.last_frames, polls_to_give_up(), after),
{
    lemma_silence_keeps_frames(watch, n);
    lemma_silence_adds_up(watch, n);
}

/// The one wait for room for a message, watched from its first look at the playhead on. It ends with
/// an attempt that has the given outcome.
pub open spec fn waited<P>(
    before: crossbeam_channel::Sender<ControlMessage<P>>,
    frames_played: &std::sync::atomic::AtomicU64,
    o: OutgoingView<P>,
    msg: ControlMessage<P>,
    watch: StallWatch,
    n: nat,
    outcome: SendOutcome<ControlMessage<P>>,
    frames: u64,
    after: crossbeam_channel::Sender<ControlMessage<P>>,
) -> bool {
    &&& msg@ == o.message
    &&& watch.stalled_ms == 0
    &&& frames_read(before, frames_played, watch.last_frames)
    &&& send_polls(before, frames_played, watch, msg, n, outcome, frames, after)
}

/// Whether the wait for room for a message has ended well: the message was taken, or there is no
/// receiver any more.
pub open spec fn handed_over<P>(
    before: crossbeam_channel::Sender<ControlMessage<P>>,
    frames_played: &std::sync::atomic::AtomicU64,
    o: OutgoingView<P>,
    after: crossbeam_channel::Sender<ControlMessage<P>>,
) -> bool {
    exists|
        msg: ControlMessage<P>,
        watch: StallWatch,
        n: nat,
        outcome: SendOutcome<ControlMessage<P>>,
        frames: u64,
    | #[trigger]
        waited(before, frames_played, o, msg, watch, n, outcome, frames, after) && !(
        outcome is Timeout)
}

/// Whether the wait for room for a message has ended without it: the last attempt has timed out, and
/// the look at the playhead that followed tells that the render thread moves on or that it has
/// stalled.
pub open spec fn polled<P>(
    before: crossbeam_channel::Sender<ControlMessage<P>>,
    frames_played: &std::sync::atomic::AtomicU64,
    o: OutgoingView<P>,
    liveness: Liveness,
    after: crossbeam_channel::Sender<ControlMessage<P>>,
) -> bool {
    exists|
        msg: ControlMessage<P>,
        watch: StallWatch,
        n: nat,
        outcome: SendOutcome<ControlMessage<P>>,
        frames: u64,
    |
        {
            &&& #[trigger] waited(before, frames_played, o, msg, watch, n, outcome, frames, after)
            &&& outcome == SendOutcome::Timeout(msg)
            &&& after_silence(watch, n).judge(frames) == liveness
        }
}

/// Messages are handed over one after the other, each with one wait of its own and with nothing else
/// sent in between.
pub open spec fn sent_in_order<P>(
    before: crossbeam_channel::Sender<ControlMessage<P>>,
    frames_played: &std::sync::atomic::AtomicU64,
    msgs: Seq<OutgoingView<P>>,
    after: crossbeam_channel::Sender<ControlMessage<P>>,
) -> bool
    decreases msgs.len(),
{
    if msgs.len() == 0 {
        before == after
    } else {
        exists|mid: crossbeam_channel::Sender<ControlMessage<P>>|
            {
                &&& #[trigger] handed_over(mid, frames_played, msgs.last(), after)
                &&& sent_in_order(before, frames_played, msgs.drop_last(), mid)
            }
    }
}

/// Whether the wait for room for a message is over: the message was handed over, or it met a stall.
pub open spec fn tried<P>(
    before: crossbeam_channel::Sender<ControlMessage<P>>,
    frames_played: &std::sync::atomic::AtomicU64,
    o: OutgoingView<P>,
    after: crossbeam_channel::Sender<ControlMessage<P>>,
) -> bool {
    handed_over(before, frames_played, o, after) || polled(
        before,
        frames_played,
        o,
        Liveness::Stalled,
        after,
    )
}

/// Messages are tried one after the other, each with one wait of its own and with nothing else sent
/// in between.
pub open spec fn tried_in_order<P>(
    before: crossbeam_channel::Sender<ControlMessage<P>>,
    frames_played: &std::sync::atomic::AtomicU64,
    msgs: Seq<OutgoingView<P>>,
    after: crossbeam_channel::Sender<ControlMessage<P>>,
) -> bool
    decreases msgs.len(),
{
    if msgs.len() == 0 {
        before == after
    } else {
        exists|mid: crossbeam_channel::Sender<ControlMessage<P>>|
            {
                &&& #[trigger] tried(mid, frames_played, msgs.last(), after)
                &&& tried_in_order(before, frames_played, msgs.drop_last(), mid)
            }
    }
}

/// How sending ends: with nothing left, or at a message for which there is no room yet although the
/// playhead moves.
pub open spec fn stopped_at<P>(
    before: crossbeam_channel::Sender<ControlMessage<P>>,
    frames_played: &std::sync::atomic::AtomicU64,
    left: Seq<OutgoingView<P>>,
    after: crossbeam_channel::Sender<ControlMessage<P>>,
) -> bool {
    if left.len() == 0 {
        before == after
    } else {
        polled(before, frames_played, left[0], Liveness::Progressing, after)
    }
}

/// The first messages of an outbox were handed over in order, and the others are left.
pub open spec fn sent_without_stall<P>(
    before: crossbeam_channel::Sender<ControlMessage<P>>,
    frames_played: &std::sync::atomic::AtomicU64,
    outbox: Seq<OutgoingView<P>>,
    left: Seq<OutgoingView<P>>,
    after: crossbeam_channel::Sender<ControlMessage<P>>,
) -> bool {
    let gone = outbox.len() - left.len();
    &&& 0 <= gone
    &&& left == outbox.skip(gone)
    &&& exists|mid: crossbeam_channel::Sender<ControlMessage<P>>|
        {
            &&& #[trigger] sent_in_order(before, frames_played, outbox.take(gone), mid)
            &&& stopped_at(mid, frames_played, left, after)
        }
}

/// The render thread stalled on the message at position `k` of an outbox. What was before it was
/// handed over in order.
pub open spec fn stalled_on<P>(
    before: crossbeam_channel::Sender<ControlMessage<P>>,
    frames_played: &std::sync::atomic::AtomicU64,
    outbox: Seq<OutgoingView<P>>,
    k: int,
    after: crossbeam_channel::Sender<ControlMessage<P>>,
) -> bool {
    &&& 0 <= k < outbox.len()
    &&& exists|mid: crossbeam_channel::Sender<ControlMessage<P>>|
        {
            &&& #[trigger] sent_in_order(before, frames_played, outbox.take(k), mid)
            &&& polled(mid, frames_played, outbox[k], Liveness::Stalled, after)
        }
}

/// After a stall, the messages that survive it were tried in order, up to those that are left.
pub open spec fn tried_after_stall<P>(
    before: crossbeam_channel::Sender<ControlMessage<P>>,
    frames_played: &std::sync::atomic::AtomicU64,
    rest: Seq<OutgoingView<P>>,
    left: Seq<OutgoingView<P>>,
    after: crossbeam_channel::Sender<ControlMessage<P>>,
) -> bool {
    let done = rest.len() - left.len();
    &&& 0 <= done
    &&& left == rest.skip(done)
    &&& tried_in_order(before, frames_played, rest.take(done), after)
}

/// The render thread stalled on the message at position `k` of an outbox. What was before it was
/// handed over in order. Of what was behind it, the messages that survive a stall were tried in
/// order, up to those that are left: each was handed over, or met a stall of its own. The others were
/// discarded.
pub open spec fn stalled_at<P>(
    before: crossbeam_channel::Sender<ControlMessage<P>>,
    frames_played: &std::sync::atomic::AtomicU64,
    outbox: Seq<OutgoingView<P>>,
    k: int,
    left: Seq<OutgoingView<P>>,
    after: crossbeam_channel::Sender<ControlMessage<P>>,
) -> bool {
    let rest = outbox.skip(k + 1).filter(survives_stall());
    exists|
        stall: crossbeam_channel::Sender<ControlMessage<P>>,
        mid: crossbeam_channel::Sender<ControlMessage<P>>,
    |
        {
            &&& #[trigger] stalled_on(before, frames_played, outbox, k, stall)
            &&& #[trigger] tried_after_stall(stall, frames_played, rest, left, mid)
            &&& stopped_at(mid, frames_played, left, after)
        }
}

/// One more message is handed over.
proof fn lemma_sent_in_order_step<P>(
    before: crossbeam_channel::Sender<ControlMessage<P>>,
    frames_played: &std::sync::atomic::AtomicU64,
    msgs: Seq<OutgoingView<P>>,
    mid: crossbeam_channel::Sender<ControlMessage<P>>,
    o: OutgoingView<P>,
    after: crossbeam_channel::Sender<ControlMessage<P>>,
)
    requires
        sent_in_order(before, frames_played, msgs, mid),
        handed_over(mid, frames_played, o, after),
    ensures
        sent_in_order(before, frames_played, msgs.push(o), after),
{
    assert(msgs.push(o).drop_last() =~= msgs);
    assert(msgs.push(o).last() == o);
}

/// Sending one list of messages and then another is sending both in order, one behind the other.
pub proof fn law_sending_goes_on_in_order<P>(
    before: crossbeam_channel::Sender<ControlMessage<P>>,
    frames_played: &std::sync::atomic::AtomicU64,
    first: Seq<OutgoingView<P>>,
    mid: crossbeam_channel::Sender<ControlMessage<P>>,
    second: Seq<OutgoingView<P>>,
    after: crossbeam_channel::Sender<ControlMessage<P>>,
)
    requires
        sent_in_order(before, frames_played, first, mid),
        sent_in_order(mid, frames_played, second, after),
    ensures
        sent_in_order(before, frames_played, first + second, after),
    decreases second.len(),
{
    if second.len() == 0 {
        assert(first + second =~= first);
    } else {
        let last = choose|last: crossbeam_channel::Sender<ControlMessage<P>>|
            {
                &&& #[trigger] handed_over(last, frames_played, second.last(), after)
                &&& sent_in_order(mid, frames_played, second.drop_last(), last)
            };
        law_sending_goes_on_in_order(before, frames_played, first, mid, second.drop_last(), last);
        assert((first + second).drop_last() =~= first + second.drop_last());
        assert((first + second).last() == second.last());
    }
}

/// Trying one list of messages and then another is trying both in order.
proof fn lemma_tried_in_order_twice<P>(
    before: crossbeam_channel::Sender<ControlMessage<P>>,
    frames_played: &std::sync::atomic::AtomicU64,
    first: Seq<OutgoingView<P>>,
    mid: crossbeam_channel::Sender<ControlMessage<P>>,
    second: Seq<OutgoingView<P>>,
    after: crossbeam_channel::Sender<ControlMessage<P>>,
)
    requires
        tried_in_order(before, frames_played, first, mid),
        tried_in_order(mid, frames_played, second, after),
    ensures
        tried_in_order(before, frames_played, first + second, after),
    decreases second.len(),
{
    if second.len() == 0 {
        assert(first + second =~= first);
    } else {
        let last = choose|last: crossbeam_channel::Sender<ControlMessage<P>>|
            {
                &&& #[trigger] tried(last, frames_played, second.last(), after)
                &&& tried_in_order(mid, frames_played, second.drop_last(), last)
            };
        lemma_tried_in_order_twice(before, frames_played, first, mid, second.drop_last(), last);
        assert((first + second).drop_last() =~= first + second.drop_last());
        assert((first + second).last() == second.last());
    }
}

/// What was handed over in order was tried in order.
proof fn lemma_sent_is_tried<P>(
    before: crossbeam_channel::Sender<ControlMessage<P>>,
    frames_played: &std::sync::atomic::AtomicU64,
    msgs: Seq<OutgoingView<P>>,
    after: crossbeam_channel::Sender<ControlMessage<P>>,
)
    requires
        sent_in_order(before, frames_played, msgs, after),
    ensures
        tried_in_order(before, frames_played, msgs, after),
    decreases msgs.len(),
{
    if msgs.len() > 0 {
        let mid = choose|mid: crossbeam_channel::Sender<ControlMessage<P>>|
            {
                &&& #[trigger] handed_over(mid, frames_played, msgs.last(), after)
                &&& sent_in_order(before, frames_played, msgs.drop_last(), mid)
            };
        lemma_sent_is_tried(before, frames_played, msgs.drop_last(), mid);
        assert(tried(mid, frames_played, msgs.last(), after));
    }
}

/// Where sending an outbox has stopped.
enum FlushStop {
    /// nothing is left
    Drained,
    /// there is no room for the next message yet
    Full,
    /// the render thread has stalled on a message
    Stalled,
}

impl<P, H> ConcreteBaseAudioContext<P, H> {
    /// Judges a poll that timed out, and closes the context if the render thread has stalled.
    pub fn render_thread_timed_out(&mut self, watch: &mut StallWatch, frames: u64) -> (r: Liveness)
        requires
            old(watch).wf(),
        ensures
            r == old(watch).judge(frames),
            *final(watch) == old(watch).after(frames),
            final(self)@ == (if r == Liveness::Stalled {
                old(self)@.with_state(AudioContextState::Closed)
            } else {
                old(self)@
            }),
    {
        let liveness = watch.on_timeout(frames);
        if liveness == Liveness::Stalled {
            self.set_state(AudioContextState::Closed);
        }
        liveness
    }

    /// Decides what becomes of a control message after one attempt to send it.
    pub fn after_send(
        &mut self,
        watch: &mut StallWatch,
        outcome: SendOutcome<ControlMessage<P>>,
        frames: u64,
    ) -> (r: PollStep<SendProgress<P>, ControlMessage<P>>)
        requires
            old(watch).wf(),
        ensures
            match outcome {
                SendOutcome::Sent => r == PollStep::<_, ControlMessage<P>>::Done(
                    SendProgress::<P>::Sent,
                ) && final(self)@ == old(self)@ && *final(watch) == *old(watch),
                SendOutcome::Disconnected(_) => r == PollStep::<_, ControlMessage<P>>::Done(
                    SendProgress::<P>::Discarded,
                ) && final(self)@ == old(self)@ && *final(watch) == *old(watch),
                SendOutcome::Timeout(msg) => {
                    &&& *final(watch) == old(watch).after(frames)
                    &&& match old(watch).judge(frames) {
                        Liveness::Progressing => r == PollStep::<_, ControlMessage<P>>::Done(
                            SendProgress::Pending(msg),
                        ) && final(self)@ == old(self)@,
                        Liveness::Waiting => r == PollStep::<SendProgress<P>, _>::Again(msg)
                            && final(self)@ == old(self)@,
                        Liveness::Stalled => r == PollStep::<_, ControlMessage<P>>::Done(
                            SendProgress::<P>::Stalled,
                        ) && final(self)@ == old(self)@.with_state(AudioContextState::Closed),
                    }
                },
            },
    {
        match outcome {
            SendOutcome::Sent => PollStep::Done(SendProgress::Sent),
            SendOutcome::Disconnected(_) => PollStep::Done(SendProgress::Discarded),
            SendOutcome::Timeout(msg) => match self.render_thread_timed_out(watch, frames) {
                Liveness::Progressing => PollStep::Done(SendProgress::Pending(msg)),
                Liveness::Waiting => PollStep::Again(msg),
                Liveness::Stalled => PollStep::Done(SendProgress::Stalled),
            },
        }
    }

    /// Hands one control message to the render thread without ever blocking the control thread
    /// indefinitely.
    ///
    /// It polls until the message is sent, the render thread is gone or has stalled, or the
    /// playhead has moved. In the last case the message comes back, to be tried again.
    pub fn send_to_render_thread(
        &mut self,
        sender: crossbeam_channel::Sender<ControlMessage<P>>,
        frames_played: &std::sync::atomic::AtomicU64,
        watch: &mut StallWatch,
        msg: ControlMessage<P>,
    ) -> (r: (SendProgress<P>, crossbeam_channel::Sender<ControlMessage<P>>))
        requires
            old(watch).wf(),
        ensures
            final(self)@ == (if r.0 is Stalled {
                old(self)@.with_state(AudioContextState::Closed)
            } else {
                old(self)@
            }),
            r.0 matches SendProgress::Pending(returned) ==> returned == msg,
            r.0 is Pending ==> final(watch).stalled_ms == 0 && final(watch).last_frames != old(
                watch,
            ).last_frames,
            r.0 is Stalled <==> !final(watch).wf(),
            !(r.0 is Pending) ==> final(watch).last_frames == old(watch).last_frames,
            exists|n: nat, outcome: SendOutcome<ControlMessage<P>>, frames: u64|
                {
                    let before = after_silence(*old(watch), n);
                    &&& #[trigger] send_polls(
                        sender,
                        frames_played,
                        *old(watch),
                        msg,
                        n,
                        outcome,
                        frames,
                        r.1,
                    )
                    &&& send_step(before, outcome, frames) == PollStep::<_, ControlMessage<P>>::Done(
                        r.0,
                    )
                    &&& *final(watch) == (if outcome is Timeout {
                        before.after(frames)
                    } else {
                        before
                    })
                },
    {
        let ghost mut n: nat = 0;
        let mut end = sender;
        let mut message = msg;
        loop
            invariant
                message == msg,
                watch.wf(),
                watch.last_frames == old(watch).last_frames,
                watch.stalled_ms == old(watch).stalled_ms + n * POLL_MS,
                self@ == old(self)@,
                *watch == after_silence(*old(watch), n),
                silent_sends(sender, frames_played, old(watch).last_frames, msg, n, end),
            decreases STALL_GRACE_MS - watch.stalled_ms,
        {
            let ghost mid = end;
            let (outcome, back) = send_timeout(end, message, POLL_MS);
            end = back;
            assert(send_attempt(mid, msg, outcome, end));
            let frames: u64 = match outcome {
                SendOutcome::Timeout(_) => look(&end, frames_played),
                _ => watch.last_frames,
            };
            assert(outcome is Timeout ==> frames_read(end, frames_played, frames));
            assert(send_polls(
                sender,
                frames_played,
                *old(watch),
                msg,
                n,
                outcome,
                frames,
                end,
            ));
            let ghost got = outcome;
            match self.after_send(watch, outcome, frames) {
                PollStep::Done(progress) => {
                    let r = (progress, end);
                    assert(send_polls(
                        sender,
                        frames_played,
                        *old(watch),
                        msg,
                        n,
                        got,
                        frames,
                        r.1,
                    ));
                    return r;
                },
                PollStep::Again(returned) => {
                    message = returned;  // the message is handed back, nothing is lost
                    proof {
                        n = n + 1;
                    }
                },
            }
        }
    }

    /// Sends the messages that are on their way to the render thread, up to a stall.
    fn send_outbox(
        &mut self,
        sender: crossbeam_channel::Sender<ControlMessage<P>>,
        frames_played: &std::sync::atomic::AtomicU64,
    ) -> (r: (FlushStop, crossbeam_channel::Sender<ControlMessage<P>>))
        ensures
            ({
                let outbox = old(self)@.outbox;
                let left = final(self)@.outbox;
                let gone = outbox.len() - left.len();
                let unsent = BaseView { outbox: left, ..old(self)@ };
                &&& 0 <= gone
                &&& left == outbox.skip(gone)
                &&& match r.0 {
                    FlushStop::Drained => left.len() == 0 && final(self)@ == unsent
                        && sent_without_stall(sender, frames_played, outbox, left, r.1),
                    FlushStop::Full => left.len() > 0 && final(self)@ == unsent
                        && sent_without_stall(sender, frames_played, outbox, left, r.1),
                    FlushStop::Stalled => final(self)@ == unsent.with_state(
                        AudioContextState::Closed,
                    ) && stalled_on(sender, frames_played, outbox, gone - 1, r.1),
                }
            }),
    {
        let ghost all = self@.outbox;
        let mut end = sender;
        assert(all.skip(0) =~= all);
        loop
            invariant
                all == old(self)@.outbox,
                self@.outbox.len() <= all.len(),
                self@.outbox == all.skip(all.len() - self@.outbox.len()),
                self@ == (BaseView { outbox: self@.outbox, ..old(self)@ }),
                sent_in_order(
                    sender,
                    frames_played,
                    all.take(all.len() - self@.outbox.len()),
                    end,
                ),
            decreases self@.outbox.len(),
        {
            let ghost k = all.len() - self@.outbox.len();
            let ghost mid = end;
            let outgoing = match self.next_outgoing() {
                None => {
                    return (FlushStop::Drained, end);
                },
                Some(outgoing) => outgoing,
            };
            assert(outgoing@ == all[k]);
            assert(self@.outbox =~= all.skip(k + 1));
            let even_after_stall = outgoing.even_after_stall;
            let ghost msg = outgoing.message;
            let mut watch = StallWatch::start(&end, frames_played);
            let ghost start = watch;
            let (progress, back) = self.send_to_render_thread(
                end,
                frames_played,
                &mut watch,
                outgoing.message,
            );
            end = back;
            proof {
                let (n, outcome, frames) = choose|
                    n: nat,
                    outcome: SendOutcome<ControlMessage<P>>,
                    frames: u64,
                |
                    {
                        &&& #[trigger] send_polls(
                            mid,
                            frames_played,
                            start,
                            msg,
                            n,
                            outcome,
                            frames,
                            end,
                        )
                        &&& send_step(after_silence(start, n), outcome, frames) == PollStep::<
                            _,
                            ControlMessage<P>,
                        >::Done(progress)
                    };
                assert(waited(
                    mid,
                    frames_played,
                    all[k],
                    msg,
                    start,
                    n,
                    outcome,
                    frames,
                    end,
                ));
            }
            match progress {
                SendProgress::Pending(message) => {
                    self.put_back(Outgoing { message, even_after_stall });
                    assert(self@.outbox =~= all.skip(k));
                    assert(polled(
                        mid,
                        frames_played,
                        all[k],
                        Liveness::Progressing,
                        end,
                    ));
                    return (FlushStop::Full, end);
                },
                SendProgress::Stalled => {
                    assert(polled(mid, frames_played, all[k], Liveness::Stalled, end));
                    return (FlushStop::Stalled, end);
                },
                SendProgress::Sent | SendProgress::Discarded => {
                    assert(handed_over(mid, frames_played, all[k], end));
                    proof {
                        lemma_sent_in_order_step(
                            sender,
                            frames_played,
                            all.take(k),
                            mid,
                            all[k],
                            end,
                        );
                        assert(all.take(k).push(all[k]) =~= all.take(k + 1));
                    }
                },
            }
        }
    }

    /// Sends the messages that are on their way to the render thread, oldest first, each as
    /// [`Self::send_to_render_thread`] does. The sender comes back with the answer.
    ///
    /// It returns true once none is left. Before that it stops at a message for which the render
    /// thread has no room yet although the playhead moves: that one and all later ones stay.
    /// A stall closes the context, and discards what is behind it, but for the messages that are
    /// sent even then.
    pub fn flush(
        &mut self,
        sender: crossbeam_channel::Sender<ControlMessage<P>>,
        frames_played: &std::sync::atomic::AtomicU64,
    ) -> (r: (bool, crossbeam_channel::Sender<ControlMessage<P>>))
        ensures
            ({
                let outbox = old(self)@.outbox;
                let left = final(self)@.outbox;
                let unsent = BaseView { outbox: left, ..old(self)@ };
                &&& r.0 <==> left.len() == 0
                &&& {
                    ||| final(self)@ == unsent && sent_without_stall(
                        sender,
                        frames_played,
                        outbox,
                        left,
                        r.1,
                    )
                    ||| final(self)@ == unsent.with_state(AudioContextState::Closed) && exists|
                        k: int,
                    | #[trigger]
                        stalled_at(sender, frames_played, outbox, k, left, r.1)
                }
            }),
    {
        let ghost all = self@.outbox;
        let ghost yes = survives_stall::<P>();
        let (stop, back) = self.send_outbox(sender, frames_played);
        let mut end = back;
        match stop {
            FlushStop::Drained => {
                return (true, end);
            },
            FlushStop::Full => {
                return (false, end);
            },
            FlushStop::Stalled => {},
        }
        let ghost k = all.len() - self@.outbox.len() - 1;
        let ghost stall = end;
        let ghost rest = all.skip(k + 1).filter(yes);
        self.discard_after_stall();
        assert(rest.skip(0) =~= rest);
        assert(rest.take(0) =~= Seq::empty());
        assert(tried_after_stall(stall, frames_played, rest, self@.outbox, end));
        loop
            invariant
                all == old(self)@.outbox,
                yes == survives_stall::<P>(),
                rest == all.skip(k + 1).filter(yes),
                stalled_on(sender, frames_played, all, k, stall),
                tried_after_stall(stall, frames_played, rest, self@.outbox, end),
                self@ == (BaseView { outbox: self@.outbox, ..old(self)@ }).with_state(
                    AudioContextState::Closed,
                ),
            decreases self@.outbox.len(),
        {
            let ghost before = self@.outbox;
            let ghost done = rest.len() - before.len();
            let ghost from = end;
            let (stop, back) = self.send_outbox(end, frames_played);
            end = back;
            let ghost gone = before.len() - self@.outbox.len();
            assert(self@.outbox =~= rest.skip(done + gone));
            match stop {
                FlushStop::Drained | FlushStop::Full => {
                    proof {
                        let mid = choose|mid: crossbeam_channel::Sender<ControlMessage<P>>|
                            {
                                &&& #[trigger] sent_in_order(
                                    from,
                                    frames_played,
                                    before.take(gone),
                                    mid,
                                )
                                &&& stopped_at(mid, frames_played, self@.outbox, end)
                            };
                        lemma_sent_is_tried(from, frames_played, before.take(gone), mid);
                        lemma_tried_in_order_twice(
                            stall,
                            frames_played,
                            rest.take(done),
                            from,
                            before.take(gone),
                            mid,
                        );
                        assert(rest.take(done) + before.take(gone) =~= rest.take(done + gone));
                        assert(tried_after_stall(stall, frames_played, rest, self@.outbox, mid));
                    }
                    let drained = match stop {
                        FlushStop::Drained => true,
                        _ => false,
                    };
                    let r = (drained, end);
                    assert(stalled_at(sender, frames_played, all, k, self@.outbox, r.1));
                    return r;
                },
                FlushStop::Stalled => {
                    let ghost kept = self@.outbox;
                    self.discard_after_stall();
                    proof {
                        let mid = choose|mid: crossbeam_channel::Sender<ControlMessage<P>>|
                            {
                                &&& #[trigger] sent_in_order(
                                    from,
                                    frames_played,
                                    before.take(gone - 1),
                                    mid,
                                )
                                &&& polled(
                                    mid,
                                    frames_played,
                                    before[gone - 1],
                                    Liveness::Stalled,
                                    end,
                                )
                            };
                        lemma_sent_is_tried(from, frames_played, before.take(gone - 1), mid);
                        assert(tried(mid, frames_played, before[gone - 1], end));
                        assert(before.take(gone).drop_last() =~= before.take(gone - 1));
                        assert(before.take(gone).last() == before[gone - 1]);
                        assert(tried_in_order(from, frames_played, before.take(gone), end));
                        lemma_tried_in_order_twice(
                            stall,
                            frames_played,
                            rest.take(done),
                            from,
                            before.take(gone),
                            end,
                        );
                        assert(rest.take(done) + before.take(gone) =~= rest.take(done + gone));
                        assert forall|i: int| 0 <= i < kept.len() implies yes(#[trigger] kept[i]) by {
                            assert(kept[i] == rest[done + gone + i]);
                            lemma_filter_contains_iff(all.skip(k + 1), yes, kept[i]);
                        }
                        lemma_filter_all(kept, yes);
                    }
                },
            }
        }
    }

    /// Decides whether to go on waiting for an acknowledgement after one attempt to receive it.
    pub fn after_wait(&mut self, watch: &mut StallWatch, outcome: RecvOutcome<()>, frames: u64) -> (r:
        PollStep<Option<bool>, ()>)
        requires
            old(watch).wf(),
        ensures
            match outcome {
                // a render thread that is gone leaves nothing to wait for
                RecvOutcome::Received(_) | RecvOutcome::Disconnected => r == PollStep::<_, ()>::Done(
                    Some(true),
                ) && final(self)@ == old(self)@ && *final(watch) == *old(watch),
                RecvOutcome::Timeout => {
                    &&& *final(watch) == old(watch).after(frames)
                    &&& match old(watch).judge(frames) {
                        Liveness::Progressing => r == PollStep::<_, ()>::Done(None::<bool>)
                            && final(self)@ == old(self)@,
                        Liveness::Waiting => r == PollStep::<Option<bool>, _>::Again(())
                            && final(self)@ == old(self)@,
                        Liveness::Stalled => r == PollStep::<_, ()>::Done(Some(false))
                            && final(self)@ == old(self)@.with_state(AudioContextState::Closed),
                    }
                },
            },
    {
        match outcome {
            RecvOutcome::Received(_) => PollStep::Done(Some(true)),
            RecvOutcome::Disconnected => PollStep::Done(Some(true)),
            RecvOutcome::Timeout => match self.render_thread_timed_out(watch, frames) {
                Liveness::Progressing => PollStep::Done(None),
                Liveness::Waiting => PollStep::Again(()),
                Liveness::Stalled => PollStep::Done(Some(false)),
            },
        }
    }

    /// Waits until the render thread acknowledges a synchronous control message.
    ///
    /// It polls until the acknowledgement arrives or the render thread is gone (`Some(true)`), the
    /// render thread has stalled (`Some(false)`, and the context is closed), or the playhead has
    /// moved (`None`, go on waiting).
    pub fn wait_for_render_thread(
        &mut self,
        receiver: crossbeam_channel::Receiver<()>,
        frames_played: &std::sync::atomic::AtomicU64,
        watch: &mut StallWatch,
    ) -> (r: (Option<bool>, crossbeam_channel::Receiver<()>))
        requires
            old(watch).wf(),
        ensures
            final(self)@ == (if r.0 == Some(false) {
                old(self)@.with_state(AudioContextState::Closed)
            } else {
                old(self)@
            }),
            r.0 is None ==> final(watch).stalled_ms == 0 && final(watch).last_frames != old(
                watch,
            ).last_frames,
            r.0 == Some(false) <==> !final(watch).wf(),
            r.0 is Some ==> final(watch).last_frames == old(watch).last_frames,
            exists|n: nat, outcome: RecvOutcome<()>, frames: u64|
                {
                    let before = after_silence(*old(watch), n);
                    &&& #[trigger] recv_polls(
                        receiver,
                        frames_played,
                        *old(watch),
                        n,
                        outcome,
                        frames,
                        r.1,
                    )
                    &&& wait_step(before, outcome, frames) == PollStep::<_, ()>::Done(r.0)
                    &&& *final(watch) == (if outcome is Timeout {
                        before.after(frames)
                    } else {
                        before
                    })
                },
    {
        let ghost mut n: nat = 0;
        let mut end = receiver;
        loop
            invariant
                watch.wf(),
                watch.last_frames == old(watch).last_frames,
                watch.stalled_ms == old(watch).stalled_ms + n * POLL_MS,
                self@ == old(self)@,
                *watch == after_silence(*old(watch), n),
                silent_receives(receiver, frames_played, old(watch).last_frames, n, end),
            decreases STALL_GRACE_MS - watch.stalled_ms,
        {
            let ghost mid = end;
            let (outcome, back) = recv_timeout(end, POLL_MS);
            end = back;
            assert(recv_attempt(mid, outcome, end));
            let frames: u64 = match outcome {
                RecvOutcome::Timeout => look(&end, frames_played),
                _ => watch.last_frames,
            };
            assert(outcome is Timeout ==> frames_read(end, frames_played, frames));
            assert(recv_polls(receiver, frames_played, *old(watch), n, outcome, frames, end));
            let ghost got = outcome;
            match self.after_wait(watch, outcome, frames) {
                PollStep::Done(answer) => {
                    let r = (answer, end);
                    assert(recv_polls(receiver, frames_played, *old(watch), n, got, frames, r.1));
                    return r;
                },
                PollStep::Again(()) => {
                    proof {
                        n = n + 1;
                    }
                },
            }
        }
    }

    /// Decides whether to go on waiting for a payload after one attempt to receive it.
    pub fn after_recv<T>(&mut self, watch: &mut StallWatch, outcome: RecvOutcome<T>, frames: u64) -> (r:
        PollStep<ReplyProgress<T>, ()>)
        requires
            old(watch).wf(),
        ensures
            match outcome {
                RecvOutcome::Received(v) => r == PollStep::<_, ()>::Done(
                    ReplyProgress::Received(v),
                ) && final(self)@ == old(self)@ && *final(watch) == *old(watch),
                RecvOutcome::Disconnected => r == PollStep::<_, ()>::Done(ReplyProgress::<T>::Lost)
                    && final(self)@ == old(self)@.with_state(AudioContextState::Closed)
                    && *final(watch) == *old(watch),
                RecvOutcome::Timeout => {
                    &&& *final(watch) == old(watch).after(frames)
                    &&& match old(watch).judge(frames) {
                        Liveness::Progressing => r == PollStep::<_, ()>::Done(
                            ReplyProgress::<T>::Pending,
                        ) && final(self)@ == old(self)@,
                        Liveness::Waiting => r == PollStep::<ReplyProgress<T>, _>::Again(())
                            && final(self)@ == old(self)@,
                        Liveness::Stalled => r == PollStep::<_, ()>::Done(ReplyProgress::<T>::Lost)
                            && final(self)@ == old(self)@.with_state(AudioContextState::Closed),
                    }
                },
            },
    {
        match outcome {
            RecvOutcome::Received(v) => PollStep::Done(ReplyProgress::Received(v)),
            RecvOutcome::Disconnected => {
                self.set_state(AudioContextState::Closed);
                PollStep::Done(ReplyProgress::Lost)
            },
            RecvOutcome::Timeout => match self.render_thread_timed_out(watch, frames) {
                Liveness::Progressing => PollStep::Done(ReplyProgress::Pending),
                Liveness::Waiting => PollStep::Again(()),
                Liveness::Stalled => PollStep::Done(ReplyProgress::Lost),
            },
        }
    }

    /// Same liveness rule as [`Self::wait_for_render_thread`], for protocol steps that expect a
    /// payload back from the render thread.
    ///
    /// The payload is lost if the render thread stalls or drops the reply channel. The context is
    /// closed in both cases, as no later operation could succeed.
    pub fn recv_from_render_thread<T>(
        &mut self,
        receiver: crossbeam_channel::Receiver<T>,
        frames_played: &std::sync::atomic::AtomicU64,
        watch: &mut StallWatch,
    ) -> (r: (ReplyProgress<T>, crossbeam_channel::Receiver<T>))
        requires
            old(watch).wf(),
        ensures
            final(self)@ == (if r.0 is Lost {
                old(self)@.with_state(AudioContextState::Closed)
            } else {
                old(self)@
            }),
            r.0 is Pending ==> final(watch).stalled_ms == 0 && final(watch).last_frames != old(
                watch,
            ).last_frames,
            !(r.0 is Pending) ==> final(watch).last_frames == old(watch).last_frames,
            exists|n: nat, outcome: RecvOutcome<T>, frames: u64|
                {
                    let before = after_silence(*old(watch), n);
                    &&& #[trigger] recv_polls(
                        receiver,
                        frames_played,
                        *old(watch),
                        n,
                        outcome,
                        frames,
                        r.1,
                    )
                    &&& recv_step(before, outcome, frames) == PollStep::<_, ()>::Done(r.0)
                    &&& !final(watch).wf() <==> r.0 is Lost && outcome is Timeout
                    &&& *final(watch) == (if outcome is Timeout {
                        before.after(frames)
                    } else {
                        before
                    })
                },
    {
        let ghost mut n: nat = 0;
        let mut end = receiver;
        loop
            invariant
                watch.wf(),
                watch.last_frames == old(watch).last_frames,
                watch.stalled_ms == old(watch).stalled_ms + n * POLL_MS,
                self@ == old(self)@,
                *watch == after_silence(*old(watch), n),
                silent_receives(receiver, frames_played, old(watch).last_frames, n, end),
            decreases STALL_GRACE_MS - watch.stalled_ms,
        {
            let ghost mid = end;
            let (outcome, back) = recv_timeout(end, POLL_MS);
            end = back;
            assert(recv_attempt(mid, outcome, end));
            let frames: u64 = match outcome {
                RecvOutcome::Timeout => look(&end, frames_played),
                _ => watch.last_frames,
            };
            assert(outcome is Timeout ==> frames_read(end, frames_played, frames));
            assert(recv_polls(receiver, frames_played, *old(watch), n, outcome, frames, end));
            let ghost got = outcome;
            match self.after_recv(watch, outcome, frames) {
                PollStep::Done(progress) => {
                    let r = (progress, end);
                    assert(recv_polls(receiver, frames_played, *old(watch), n, got, frames, r.1));
                    return r;
                },
                PollStep::Again(()) => {
                    proof {
                        n = n + 1;
                    }
                },
            }
        }
    }
}

} // verus!
