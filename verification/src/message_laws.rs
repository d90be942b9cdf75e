//! What each operation on messages and events does to a context, in terms of what was there before.

use vstd::prelude::*;
use crate::concrete_base::{BaseView, ConcreteBaseAudioContext, survives_stall};
use crate::events::{
    AudioBuffer, AudioContextState, EventDispatch, EventLoop, EventLoopView, EventType, EventView,
};
use crate::ids::{AudioNodeId, node_contents};
use crate::message::{ControlMessage, MessageView, Outgoing, OutgoingView};
use crate::param::Float32;
use crate::seqs::{lemma_filter_all, lemma_filter_contains_iff, lemma_filter_keeps_order};

verus! {

/// Whether messages have left a context, in this order and behind what was on its way already: none
/// leaves a closed context, and none leaves while messages are held back, but they are kept then.
pub open spec fn puts_out<P, H>(
    before: BaseView<P, H>,
    after: BaseView<P, H>,
    messages: Seq<MessageView<P>>,
) -> bool {
    if before.state == AudioContextState::Closed {
        after.outbox == before.outbox && after.suspended == before.suspended
    } else if before.suspended is Some {
        after.outbox == before.outbox && after.suspended == Some(before.suspended->0 + messages)
    } else {
        &&& after.suspended is None
        &&& after.outbox.len() == before.outbox.len() + messages.len()
        &&& forall|i: int|
            0 <= i < before.outbox.len() ==> #[trigger] after.outbox[i] == before.outbox[i]
        &&& forall|i: int|
            before.outbox.len() <= i < after.outbox.len() ==> #[trigger] after.outbox[i]
                == (OutgoingView {
                message: messages[i - before.outbox.len()],
                even_after_stall: false,
            })
    }
}

/// Whether two contexts differ at most in the messages that leave them or are held back.
pub open spec fn differ_in_messages_only<P, H>(a: BaseView<P, H>, b: BaseView<P, H>) -> bool {
    b == (BaseView { outbox: b.outbox, suspended: b.suspended, ..a })
}

/// A control message that is sent is the one that leaves the context, and nothing else happens.
pub proof fn law_sent_message_leaves<P, H>(
    context: &mut ConcreteBaseAudioContext<P, H>,
    msg: ControlMessage<P>,
)
    requires
        call_ensures(ConcreteBaseAudioContext::<P, H>::send_control_msg, (context, msg), ()),
    ensures
        puts_out((*old(context))@, (*final(context))@, seq![msg@]),
        differ_in_messages_only((*old(context))@, (*final(context))@),
{
}

/// The request to suspend goes out in any case, as the last message, even behind a stall; what is
/// sent later is held back, and nothing is held back yet.
pub proof fn law_request_to_suspend_goes_out<P, H>(
    context: &mut ConcreteBaseAudioContext<P, H>,
    msg: ControlMessage<P>,
)
    requires
        call_ensures(ConcreteBaseAudioContext::<P, H>::suspend_control_msgs, (context, msg), ()),
    ensures
        ({
            let before = (*old(context))@;
            let after = (*final(context))@;
            &&& after.outbox.len() == before.outbox.len() + 1
            &&& after.outbox.take(before.outbox.len() as int) == before.outbox
            &&& after.outbox.last() == (OutgoingView { message: msg@, even_after_stall: true })
            &&& after.suspended is Some && after.suspended->0.len() == 0
            &&& differ_in_messages_only(before, after)
        }),
{
    let before = (*context)@;
    let after = (*final(context))@;
    assert(after.outbox.take(before.outbox.len() as int) =~= before.outbox);
}

/// The request to resume goes out in any case: behind what was on its way, and behind all that was
/// held back, which goes out in the order in which it was sent. Nothing is held back any more.
pub proof fn law_request_to_resume_releases_messages<P, H>(
    context: &mut ConcreteBaseAudioContext<P, H>,
    msg: ControlMessage<P>,
)
    requires
        call_ensures(ConcreteBaseAudioContext::<P, H>::resume_control_msgs, (context, msg), ()),
    ensures
        ({
            let before = (*old(context))@;
            let after = (*final(context))@;
            let n = before.outbox.len();
            &&& after.suspended is None
            &&& after.outbox.take(n as int) == before.outbox
            &&& match before.suspended {
                Some(held) => {
                    &&& after.outbox.len() == n + held.len() + 1
                    &&& forall|i: int|
                        0 <= i < held.len() ==> after.outbox[n + i] == (OutgoingView {
                            message: #[trigger] held[i],
                            even_after_stall: true,
                        })
                },
                None => after.outbox.len() == n + 1,
            }
            &&& after.outbox.last() == (OutgoingView { message: msg@, even_after_stall: true })
            &&& differ_in_messages_only(before, after)
        }),
{
    let before = (*context)@;
    let after = (*final(context))@;
    assert(after.outbox.take(before.outbox.len() as int) =~= before.outbox);
}

/// Messages are taken out oldest first, one at a time, until none is left, whatever the state of the
/// context.
pub proof fn law_oldest_message_is_taken_first<P, H>(
    context: &mut ConcreteBaseAudioContext<P, H>,
    r: Option<Outgoing<P>>,
)
    requires
        call_ensures(ConcreteBaseAudioContext::<P, H>::next_outgoing, (context,), r),
    ensures
        ({
            let before = (*old(context))@;
            let after = (*final(context))@;
            &&& r is Some <==> before.outbox.len() > 0
            &&& r matches Some(o) ==> before.outbox == seq![o@] + after.outbox
            &&& r is None ==> after == before
            &&& after == (BaseView { outbox: after.outbox, ..before })
        }),
{
    let before = (*context)@;
    let after = (*final(context))@;
    if r is Some {
        assert(before.outbox =~= seq![(r->0)@] + after.outbox);
    }
}

/// Putting back a message that was just taken out leaves the context as it was.
pub proof fn law_putting_back_undoes_taking<P, H>(
    context: &mut ConcreteBaseAudioContext<P, H>,
    o: Outgoing<P>,
    later: &mut ConcreteBaseAudioContext<P, H>,
)
    requires
        call_ensures(ConcreteBaseAudioContext::<P, H>::next_outgoing, (context,), Some(o)),
        call_ensures(ConcreteBaseAudioContext::<P, H>::put_back, (later, o), ()),
        (*later)@ == (*final(context))@,
    ensures
        (*final(later))@ == (*old(context))@,
{
    assert((*final(later))@.outbox =~= (*context)@.outbox);
}

/// A message that is put back is the next one to go out, before all others.
pub proof fn law_message_put_back_is_next<P, H>(
    context: &mut ConcreteBaseAudioContext<P, H>,
    o: Outgoing<P>,
)
    requires
        call_ensures(ConcreteBaseAudioContext::<P, H>::put_back, (context, o), ()),
    ensures
        ({
            let before = (*old(context))@;
            let after = (*final(context))@;
            &&& after.outbox.len() == before.outbox.len() + 1
            &&& after.outbox[0] == o@
            &&& after.outbox.skip(1) == before.outbox
            &&& after == (BaseView { outbox: after.outbox, ..before })
        }),
{
    assert((*final(context))@.outbox.skip(1) =~= (*context)@.outbox);
}

/// Of what is behind a stall, exactly the messages stay that are to be sent even then, in their
/// order. Nothing stays if there are none, and all stay if there are no others.
pub proof fn law_stall_discards_ordinary_messages<P, H>(
    context: &mut ConcreteBaseAudioContext<P, H>,
    o: OutgoingView<P>,
    i: int,
    j: int,
)
    requires
        call_ensures(ConcreteBaseAudioContext::<P, H>::discard_after_stall, (context,), ()),
    ensures
        ({
            let before = (*old(context))@;
            let after = (*final(context))@;
            &&& after.outbox == before.outbox.filter(|m: OutgoingView<P>| m.even_after_stall)
            &&& after.outbox.contains(o) <==> before.outbox.contains(o) && o.even_after_stall
            &&& 0 <= i < j < after.outbox.len() ==> exists|a: int, b: int|
                0 <= a < b < before.outbox.len() && #[trigger] before.outbox[a] == after.outbox[i]
                    && #[trigger] before.outbox[b] == after.outbox[j]
            &&& (forall|i: int|
                0 <= i < before.outbox.len() ==> (#[trigger] before.outbox[i]).even_after_stall)
                ==> after.outbox == before.outbox
            &&& after == (BaseView { outbox: after.outbox, ..before })
        }),
{
    let before = (*context)@;
    let yes = survives_stall::<P>();
    assert(yes =~= |m: OutgoingView<P>| m.even_after_stall);
    lemma_filter_contains_iff(before.outbox, yes, o);
    if 0 <= i < j < before.outbox.filter(yes).len() {
        let (a, b) = lemma_filter_keeps_order(before.outbox, yes, i, j);
    }
    if forall|i: int|
        0 <= i < before.outbox.len() ==> (#[trigger] before.outbox[i]).even_after_stall {
        lemma_filter_all(before.outbox, yes);
    }
}

/// A context enters the state that it is given, and announces it exactly if it is another one.
pub proof fn law_state_is_entered_and_announced<P, H>(
    context: &mut ConcreteBaseAudioContext<P, H>,
    state: AudioContextState,
)
    requires
        call_ensures(ConcreteBaseAudioContext::<P, H>::set_state, (context, state), ()),
    ensures
        ({
            let before = (*old(context))@;
            let after = (*final(context))@;
            &&& after.state == state
            &&& before.state == state ==> after == before
            &&& before.state != state ==> after.events.pending == before.events.pending.push(
                EventView::StateChange(state),
            )
            &&& after.events == (EventLoopView { pending: after.events.pending, ..before.events })
            &&& after == (BaseView { state: after.state, events: after.events, ..before })
        }),
{
}

/// A state that the render thread has announced itself is entered without another event.
pub proof fn law_adopted_state_is_not_announced<P, H>(
    context: &mut ConcreteBaseAudioContext<P, H>,
    state: AudioContextState,
)
    requires
        call_ensures(ConcreteBaseAudioContext::<P, H>::adopt_state, (context, state), ()),
    ensures
        (*final(context))@.state == state,
        (*final(context))@ == (BaseView { state, ..(*old(context))@ }),
{
}

/// Events wait in the order in which they were sent.
pub proof fn law_events_wait_in_order<P, H>(
    context: &mut ConcreteBaseAudioContext<P, H>,
    event: EventDispatch,
)
    requires
        call_ensures(ConcreteBaseAudioContext::<P, H>::send_event, (context, event), ()),
    ensures
        ({
            let before = (*old(context))@;
            let after = (*final(context))@;
            &&& after.events.pending.len() == before.events.pending.len() + 1
            &&& after.events.pending.drop_last() == before.events.pending
            &&& after.events.pending.last() == event@
            &&& after.events == (EventLoopView { pending: after.events.pending, ..before.events })
            &&& after == (BaseView { events: after.events, ..before })
        }),
{
    assert((*final(context))@.events.pending.drop_last() =~= (*context)@.events.pending);
}

/// Events are handled oldest first, each once.
pub proof fn law_oldest_event_is_handled_first<P, H>(
    context: &mut ConcreteBaseAudioContext<P, H>,
    r: Option<EventDispatch>,
)
    requires
        call_ensures(ConcreteBaseAudioContext::<P, H>::next_event, (context,), r),
    ensures
        ({
            let before = (*old(context))@;
            let after = (*final(context))@;
            &&& r is Some <==> before.events.pending.len() > 0
            &&& r matches Some(event) ==> before.events.pending == seq![event@]
                + after.events.pending
            &&& r is None ==> after == before
            &&& after.events == (EventLoopView { pending: after.events.pending, ..before.events })
            &&& after == (BaseView { events: after.events, ..before })
        }),
{
    if r is Some {
        assert((*context)@.events.pending =~= seq![(r->0)@] + (*final(context))@.events.pending);
    }
}

/// A handler that is set is the active one for its kind of event, whatever was set before, and only
/// for that kind.
pub proof fn law_handler_that_is_set_is_active<P, H>(
    context: &mut ConcreteBaseAudioContext<P, H>,
    event: EventType,
    handler: H,
)
    requires
        call_ensures(
            ConcreteBaseAudioContext::<P, H>::set_event_handler,
            (context, event, handler),
            (),
        ),
    ensures
        ({
            let before = (*old(context))@;
            let after = (*final(context))@;
            &&& event == EventType::StateChange ==> after.events.on_state_change == Some(handler)
                && after.events.on_complete == before.events.on_complete
            &&& event == EventType::Complete ==> after.events.on_complete == Some(handler)
                && after.events.on_state_change == before.events.on_state_change
            &&& after.events.pending == before.events.pending
            &&& after == (BaseView { events: after.events, ..before })
        }),
{
}

/// A handler that is cleared is gone, and only that.
pub proof fn law_handler_that_is_cleared_is_gone<P, H>(
    context: &mut ConcreteBaseAudioContext<P, H>,
    event: EventType,
)
    requires
        call_ensures(
            ConcreteBaseAudioContext::<P, H>::clear_event_handler,
            (context, event),
            (),
        ),
    ensures
        ({
            let before = (*old(context))@;
            let after = (*final(context))@;
            &&& event == EventType::StateChange ==> after.events.on_state_change is None
                && after.events.on_complete == before.events.on_complete
            &&& event == EventType::Complete ==> after.events.on_complete is None
                && after.events.on_state_change == before.events.on_state_change
            &&& after.events.pending == before.events.pending
            &&& after == (BaseView { events: after.events, ..before })
        }),
{
}

/// A handler is taken out to run once: it is handed out, and gone.
pub proof fn law_handler_that_is_taken_is_gone<P, H>(
    context: &mut ConcreteBaseAudioContext<P, H>,
    event: EventType,
    r: Option<H>,
)
    requires
        call_ensures(
            ConcreteBaseAudioContext::<P, H>::take_event_handler,
            (context, event),
            r,
        ),
    ensures
        ({
            let before = (*old(context))@;
            let after = (*final(context))@;
            &&& event == EventType::StateChange ==> r == before.events.on_state_change
                && after.events.on_state_change is None && after.events.on_complete
                == before.events.on_complete
            &&& event == EventType::Complete ==> r == before.events.on_complete
                && after.events.on_complete is None && after.events.on_state_change
                == before.events.on_state_change
            &&& after.events.pending == before.events.pending
            &&& after == (BaseView { events: after.events, ..before })
        }),
{
}

/// What an event loop of its own does is what it does in a context: events wait in order, and each
/// kind of event has a handler of its own.
pub proof fn law_event_loop_keeps_order<H>(
    events: &mut EventLoop<H>,
    event: EventDispatch,
    later: &mut EventLoop<H>,
    r: Option<EventDispatch>,
)
    requires
        call_ensures(EventLoop::<H>::send, (events, event), ()),
        call_ensures(EventLoop::<H>::next_event, (later,), r),
        (*later)@ == (*final(events))@,
    ensures
        r is Some,
        (*old(events))@.pending.len() == 0 ==> (r->0)@ == event@ && (*final(later))@ == (*old(events))@,
        (*old(events))@.pending.len() > 0 ==> (r->0)@ == (*old(events))@.pending[0],
        (*old(events))@.pending.len() > 0 ==> (*final(later))@.pending == (
        *old(events))@.pending.skip(1).push(event@),
        (*final(later))@.on_state_change == (*old(events))@.on_state_change,
        (*final(later))@.on_complete == (*old(events))@.on_complete,
{
    if (*events)@.pending.len() == 0 {
        assert((*final(later))@.pending =~= (*events)@.pending);
    } else {
        assert((*final(later))@.pending =~= (*events)@.pending.skip(1).push(event@));
    }
}

/// The handlers of an event loop are independent of each other.
pub proof fn law_event_loop_handlers<H>(
    set: &mut EventLoop<H>,
    cleared: &mut EventLoop<H>,
    taken: &mut EventLoop<H>,
    event: EventType,
    handler: H,
    r: Option<H>,
)
    requires
        call_ensures(EventLoop::<H>::set_handler, (set, event, handler), ()),
        call_ensures(EventLoop::<H>::clear_handler, (cleared, event), ()),
        call_ensures(EventLoop::<H>::take_handler, (taken, event), r),
    ensures
        ({
            let s = (*final(set))@;
            let c = (*final(cleared))@;
            let t = (*final(taken))@;
            match event {
                EventType::StateChange => {
                    &&& s == (EventLoopView { on_state_change: Some(handler), ..(*old(set))@ })
                    &&& c == (EventLoopView { on_state_change: None, ..(*old(cleared))@ })
                    &&& t == (EventLoopView { on_state_change: None, ..(*old(taken))@ })
                    &&& r == (*old(taken))@.on_state_change
                },
                EventType::Complete => {
                    &&& s == (EventLoopView { on_complete: Some(handler), ..(*old(set))@ })
                    &&& c == (EventLoopView { on_complete: None, ..(*old(cleared))@ })
                    &&& t == (EventLoopView { on_complete: None, ..(*old(taken))@ })
                    &&& r == (*old(taken))@.on_complete
                },
            }
        }),
{
}

/// A new event loop has no events and no handlers.
pub proof fn law_new_event_loop_is_empty<H>(r: EventLoop<H>)
    requires
        call_ensures(EventLoop::<H>::new, (), r),
    ensures
        r@.pending.len() == 0,
        r@.on_state_change is None,
        r@.on_complete is None,
{
}

/// A buffer holds the samples that it was made of, and so does its copy.
pub proof fn law_buffer_holds_its_samples(
    channels: Vec<Vec<Float32>>,
    sample_rate: Float32,
    r: AudioBuffer,
    n: usize,
    length: usize,
    rate: Float32,
    c: usize,
    data: &Vec<Float32>,
    copy: AudioBuffer,
)
    requires
        call_ensures(AudioBuffer::from, (channels, sample_rate), r),
        call_ensures(AudioBuffer::number_of_channels, (&r,), n),
        call_ensures(AudioBuffer::length, (&r,), length),
        call_ensures(AudioBuffer::sample_rate, (&r,), rate),
        c < channels@.len(),
        call_ensures(AudioBuffer::get_channel_data, (&r, c), data),
        call_ensures(AudioBuffer::duplicate, (&r,), copy),
    ensures
        n == channels@.len(),
        length == channels@[0]@.len(),
        rate == sample_rate,
        data@ == channels@[c as int]@,
        copy@ == r@,
{
}

/// A message is seen as it is: each of its parts under its own name, with the id that is in the cell.
pub proof fn law_messages_are_seen_as_they_are<P>(m: ControlMessage<P>)
    ensures
        match m {
            ControlMessage::Startup { graph } => m@ is Startup && m@->graph == graph,
            ControlMessage::RegisterNode {
                id,
                reclaim_id,
                node,
                inputs,
                outputs,
                channel_config,
            } => {
                &&& m@ is RegisterNode
                &&& m@->RegisterNode_id == id
                &&& m@->reclaim_id == node_contents(reclaim_id)
                &&& m@->node == node
                &&& m@->inputs == inputs
                &&& m@->outputs == outputs
                &&& m@->channel_config == channel_config
            },
            ControlMessage::ControlHandleDropped { id } => m@ is ControlHandleDropped
                && m@->ControlHandleDropped_id == id,
            ControlMessage::MarkCycleBreaker { id } => m@ is MarkCycleBreaker
                && m@->MarkCycleBreaker_id == id,
            ControlMessage::ConnectNode { from, to, input, output } => {
                &&& m@ is ConnectNode
                &&& m@->ConnectNode_from == from
                &&& m@->ConnectNode_to == to
                &&& m@->ConnectNode_input == input
                &&& m@->ConnectNode_output == output
            },
            ControlMessage::DisconnectNode { from, to, input, output } => {
                &&& m@ is DisconnectNode
                &&& m@->DisconnectNode_from == from
                &&& m@->DisconnectNode_to == to
                &&& m@->DisconnectNode_input == input
                &&& m@->DisconnectNode_output == output
            },
            ControlMessage::Render { payload } => m@ is Render && m@->payload == payload,
        },
{
}

/// A message asks for a connection to a node exactly if it is a request to connect, with that node as
/// the destination.
pub proof fn law_requests_to_connect_are_told<P>(m: ControlMessage<P>, id: AudioNodeId, r: bool)
    requires
        call_ensures(ControlMessage::<P>::connects_to, (&m, id), r),
    ensures
        r <==> (m matches ControlMessage::ConnectNode { to, .. } && to == id),
{
}

} // verus!
