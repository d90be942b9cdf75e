//! What holds of a context across several calls.

use vstd::prelude::*;
use crate::concrete_base::{
    BaseView, Connection, connect_message, disconnect_message, disconnect_messages, hardcoded_ids,
    initial_channel_count, initial_context, lemma_send_all_twice, lemma_send_nothing, listener_connection, not_touching, param_connection,
    register_message, selected, selection, unselected, waits_for, waits_for_other,
};
use crate::events::{AudioContextState, EventView};
use crate::ids::{
    AudioNodeId, LISTENER_NODE_ID, LISTENER_PARAM_IDS_START, is_listener_id, is_magic_id,
};
use crate::liveness::{law_sending_goes_on_in_order, sent_in_order, sent_without_stall};
use crate::message::{ControlMessage, MessageView, connects_to, outgoing_of};
use crate::node::{NodeProcessor, destination_ports_spec, param_ports_spec};
use crate::seqs::{
    lemma_filter_all, lemma_filter_contains_iff, lemma_filter_none, lemma_filter_same,
    lemma_filter_twice,
};
use crate::spatial::{listener_param, listener_ports_spec, params_created};

verus! {

/// Connecting the same termini again changes nothing: no second connection, no second message.
pub proof fn law_repeated_connect_is_ignored<P, H>(v: BaseView<P, H>, c: Connection)
    ensures
        v.connected(c).connected(c) == v.connected(c),
{
    if !v.connections.contains(c) {
        let after = v.connections.push(c);
        assert(after[after.len() - 1] == c);
        assert(v.connected(c).connections == after);
    }
}

/// Disconnecting what was just connected restores the connections, and the render thread is told
/// of both.
pub proof fn law_disconnect_undoes_connect<P, H>(v: BaseView<P, H>, c: Connection)
    requires
        !v.connections.contains(c),
    ensures
        v.connected(c).disconnected(c.from, Some(c.output), Some(c.to), Some(c.input)) == v.send_all(
            seq![connect_message(c), disconnect_message(c)],
        ),
{
    let yes = selection(c.from, Some(c.output), Some(c.to), Some(c.input));
    let no = unselected(c.from, Some(c.output), Some(c.to), Some(c.input));
    let before = v.connections;
    let after = before.push(c);
    assert(v.connected(c).connections == after);
    assert forall|i: int| 0 <= i < before.len() implies no(#[trigger] before[i]) by {
        if selected(before[i], c.from, Some(c.output), Some(c.to), Some(c.input)) {
            assert(before[i] == c);
        }
    }
    assert forall|i: int| 0 <= i < before.len() implies !yes(#[trigger] before[i]) by {
        assert(no(before[i]));
    }
    lemma_filter_all(before, no);
    lemma_filter_none(before, yes);
    reveal(Seq::filter);
    assert(after.drop_last() =~= before);
    assert(after.filter(no) == before);
    assert(after.filter(yes) =~= seq![c]);
    assert(disconnect_messages::<P>(seq![c]) =~= seq![disconnect_message(c)]);
    lemma_send_all_twice(v, seq![connect_message(c)], seq![disconnect_message(c)]);
    assert(seq![connect_message::<P>(c)] + seq![disconnect_message(c)] =~= seq![
        connect_message(c),
        disconnect_message(c),
    ]);
}

/// A disconnect call removes exactly the connections that it selects.
pub proof fn law_disconnect_is_exact<P, H>(
    v: BaseView<P, H>,
    from: AudioNodeId,
    output: Option<usize>,
    to: Option<AudioNodeId>,
    input: Option<usize>,
    c: Connection,
)
    ensures
        v.disconnected(from, output, to, input).connections.contains(c) <==> v.connections.contains(c)
            && !selected(c, from, output, to, input),
{
    lemma_filter_contains_iff(v.connections, unselected(from, output, to, input), c);
}

/// The edges of the audio graph after one message: connecting appends an edge, whether or not there
/// is one like it, and disconnecting removes all like it.
pub open spec fn edges_after<P>(edges: Seq<Connection>, message: MessageView<P>) -> Seq<Connection> {
    match message {
        MessageView::ConnectNode { from, to, input, output } => edges.push(
            Connection { from, output, to, input },
        ),
        MessageView::DisconnectNode { from, to, input, output } => edges.filter(
            |e: Connection| e != Connection { from, output, to, input },
        ),
        _ => edges,
    }
}

/// The edges of the audio graph after a list of messages.
pub open spec fn replayed<P>(edges: Seq<Connection>, messages: Seq<MessageView<P>>) -> Seq<Connection>
    decreases messages.len(),
{
    if messages.len() == 0 {
        edges
    } else {
        edges_after(replayed(edges, messages.drop_last()), messages.last())
    }
}

proof fn lemma_replayed_disconnects<P>(edges: Seq<Connection>, gone: Seq<Connection>)
    ensures
        replayed(edges, disconnect_messages::<P>(gone)) == edges.filter(
            |e: Connection| !gone.contains(e),
        ),
    decreases gone.len(),
{
    let stays = |e: Connection| !gone.contains(e);
    let messages = disconnect_messages::<P>(gone);
    if gone.len() == 0 {
        lemma_filter_all(edges, stays);
    } else {
        let earlier = gone.drop_last();
        let last = gone.last();
        lemma_replayed_disconnects::<P>(edges, earlier);
        assert(messages.drop_last() =~= disconnect_messages(earlier));
        let stays_first = |e: Connection| !earlier.contains(e);
        let is_other = |e: Connection| e != last;
        assert forall|e: Connection| #[trigger] stays(e) == (stays_first(e) && is_other(e)) by {
            if earlier.contains(e) {
                let i = choose|i: int| 0 <= i < earlier.len() && earlier[i] == e;
                assert(gone[i] == e);
            }
            if gone.contains(e) && e != last {
                let i = choose|i: int| 0 <= i < gone.len() && gone[i] == e;
                assert(earlier[i] == e);
            }
            assert(gone[gone.len() - 1] == last);
        }
        lemma_filter_twice(edges, stays_first, is_other, stays);
    }
}

/// The edges that the render thread keeps follow the connections: whoever replays the messages of a
/// call on the connections before it gets the connections after it. As the latter hold nothing
/// twice, the render thread never has two edges with the same termini.
pub proof fn law_render_edges_follow_connections<P, H>(
    v: BaseView<P, H>,
    c: Connection,
    from: AudioNodeId,
    output: Option<usize>,
    to: Option<AudioNodeId>,
    input: Option<usize>,
)
    ensures
        ({
            let messages = if v.connections.contains(c) {
                Seq::empty()
            } else {
                seq![connect_message::<P>(c)]
            };
            v.connected(c) == (BaseView {
                connections: replayed(v.connections, messages),
                ..v
            }).send_all(messages)
        }),
        ({
            let messages = disconnect_messages::<P>(
                v.connections.filter(selection(from, output, to, input)),
            );
            v.disconnected(from, output, to, input) == (BaseView {
                connections: replayed(v.connections, messages),
                ..v
            }).send_all(messages)
        }),
{
    let connect = seq![connect_message::<P>(c)];
    reveal_with_fuel(replayed, 2);
    assert(connect.drop_last() =~= Seq::empty());
    assert(replayed(v.connections, connect) == v.connections.push(c));
    lemma_send_nothing(v);

    let gone = v.connections.filter(selection(from, output, to, input));
    lemma_replayed_disconnects::<P>(v.connections, gone);
    let no = unselected(from, output, to, input);
    let stays = |e: Connection| !gone.contains(e);
    assert forall|i: int| 0 <= i < v.connections.len() implies no(#[trigger] v.connections[i])
        == stays(v.connections[i]) by {
        lemma_filter_contains_iff(
            v.connections,
            selection(from, output, to, input),
            v.connections[i],
        );
    }
    lemma_filter_same(v.connections, no, stays);
}

/// Once an ordinary node is dropped, no connection touches it, and all other connections are as
/// they were.
pub proof fn law_dropped_node_is_unconnected<P, H>(v: BaseView<P, H>, id: AudioNodeId, c: Connection)
    requires
        !is_magic_id(id),
    ensures
        v.node_dropped(id).connections.contains(c) <==> v.connections.contains(c) && c.from != id
            && c.to != id,
{
    lemma_filter_contains_iff(v.connections, not_touching(id), c);
}

/// A closed context discards all control messages.
pub proof fn law_closed_context_discards<P, H>(v: BaseView<P, H>, messages: Seq<MessageView<P>>)
    requires
        v.state == AudioContextState::Closed,
    ensures
        v.send_all(messages) == v,
{
}

/// Control messages that are sent while the render thread is suspended are neither dropped nor
/// reordered: they go out between the request to suspend and the request to resume.
pub proof fn law_suspension_keeps_messages_in_order<P, H>(
    v: BaseView<P, H>,
    suspend: MessageView<P>,
    messages: Seq<MessageView<P>>,
    resume: MessageView<P>,
)
    requires
        v.state != AudioContextState::Closed,
    ensures
        ({
            let suspended = v.suspend_messages(suspend).send_all(messages);
            let resumed = suspended.resume_messages(resume);
            &&& suspended.outbox == v.outbox + outgoing_of(seq![suspend], true)
            &&& resumed.outbox == v.outbox + outgoing_of(
                seq![suspend] + messages + seq![resume],
                true,
            )
            &&& resumed.suspended is None
        }),
{
    let suspended = v.suspend_messages(suspend).send_all(messages);
    assert(Seq::<MessageView<P>>::empty() + messages =~= messages);
    assert(suspended.suspended == Some(messages));
    assert(suspended.resume_messages(resume).outbox =~= v.outbox + outgoing_of(
        seq![suspend] + messages + seq![resume],
        true,
    ));
}

/// An event is queued exactly when the state changes, so setting a state twice announces it once.
pub proof fn law_state_changes_are_announced_once<P, H>(v: BaseView<P, H>, state: AudioContextState)
    ensures
        v.with_state(state).state == state,
        v.with_state(state).with_state(state) == v.with_state(state),
        v.with_state(state).events.pending == (if v.state == state {
            v.events.pending
        } else {
            v.events.pending.push(EventView::StateChange(state))
        }),
{
}

/// Messages that wait for a node are released or stay; none is lost and none appears.
pub proof fn law_resolving_loses_nothing<P, H>(v: BaseView<P, H>, id: AudioNodeId, m: MessageView<P>)
    ensures
        v.queued.contains(m) <==> v.queued.filter(waits_for(id)).contains(m) || v.resolved(
            id,
        ).queued.contains(m),
        v.resolved(id).queued.contains(m) ==> !connects_to(m, id),
{
    lemma_filter_contains_iff(v.queued, waits_for(id), m);
    lemma_filter_contains_iff(v.queued, waits_for_other(id), m);
}

/// The listener is added to the audio graph once.
pub proof fn law_listener_is_added_once<P, H>(v: BaseView<P, H>)
    ensures
        v.listener_present().listener_queue.len() == 0,
        v.listener_present().listener_present() == v.listener_present(),
{
}

/// The ids that are hardcoded for the params of the listener.
pub open spec fn hardcoded_param_ids() -> Seq<AudioNodeId> {
    Seq::new(9, |i: int| AudioNodeId((LISTENER_PARAM_IDS_START + i) as u64))
}

/// The registrations of the params of the listener.
pub open spec fn param_registrations<P>(n: nat) -> Seq<MessageView<P>> {
    Seq::new(
        n,
        |i: int|
            register_message(
                AudioNodeId((LISTENER_PARAM_IDS_START + i) as u64),
                NodeProcessor::Param(listener_param(i)),
                param_ports_spec(),
            ),
    )
}

/// The registration of the listener.
pub open spec fn listener_registration<P>() -> MessageView<P> {
    register_message(
        AudioNodeId(LISTENER_NODE_ID),
        NodeProcessor::Listener,
        listener_ports_spec(),
    )
}

/// The connections of the params of the listener to the listener.
pub open spec fn param_connections<P>(n: nat) -> Seq<MessageView<P>> {
    Seq::new(
        n,
        |i: int|
            connect_message(
                param_connection(
                    AudioNodeId((LISTENER_PARAM_IDS_START + i) as u64),
                    AudioNodeId(LISTENER_NODE_ID),
                ),
            ),
    )
}

proof fn lemma_params_created_hardcoded<P, H>(v: BaseView<P, H>, n: nat)
    requires
        n <= 9,
        v.queued.len() == 0,
        v.listener_queue.len() == 0,
    ensures
        params_created(v, hardcoded_param_ids().take(n as int), AudioNodeId(LISTENER_NODE_ID)) == (
        BaseView {
            queued: param_connections(n),
            listener_queue: param_registrations(n),
            ..v
        }),
    decreases n,
{
    let ids = hardcoded_param_ids().take(n as int);
    if n == 0 {
        assert(v.queued =~= param_connections(0));
        assert(v.listener_queue =~= param_registrations(0));
    } else {
        let m = (n - 1) as nat;
        lemma_params_created_hardcoded(v, m);
        assert(ids.drop_last() =~= hardcoded_param_ids().take(m as int));
        let id = ids.last();
        assert(id == AudioNodeId((LISTENER_PARAM_IDS_START + m) as u64));
        assert(is_listener_id(id));
        assert(param_connections::<P>(n) =~= param_connections(m).push(
            connect_message(param_connection(id, AudioNodeId(LISTENER_NODE_ID))),
        ));
        assert(param_registrations::<P>(n) =~= param_registrations(m).push(
            register_message(id, NodeProcessor::Param(listener_param(m as int)), param_ports_spec()),
        ));
    }
}

/// A new context with the hardcoded ids sends the registration of its destination node. The
/// registrations of the listener and its params, and the connections between them, are kept for
/// later.
pub proof fn law_new_context<P, H>(
    blank: BaseView<P, H>,
    destination: AudioNodeId,
    listener: AudioNodeId,
    params: Seq<AudioNodeId>,
)
    requires
        blank.queued.len() == 0,
        blank.listener_queue.len() == 0,
        params.len() == 9,
        hardcoded_ids(destination, listener, params),
    ensures
        ({
            let v = initial_context(blank, destination, listener, params);
            let register_destination = register_message(
                destination,
                NodeProcessor::Destination,
                destination_ports_spec(
                    initial_channel_count(
                        blank.max_channel_count,
                        blank.offline,
                    ),
                ),
            );
            &&& v == (BaseView {
                queued: param_connections(9),
                listener_queue: param_registrations(9).push(listener_registration()),
                listener_params: v.listener_params,
                ..blank.send_all(seq![register_destination])
            })
            &&& v.listener_params is Some
        }),
{
    let register_destination = register_message(
        destination,
        NodeProcessor::Destination,
        destination_ports_spec(
            initial_channel_count(blank.max_channel_count, blank.offline),
        ),
    );
    let sent = blank.send_all(seq![register_destination]);
    lemma_filter_none(sent.queued, waits_for(destination));
    lemma_filter_none(sent.queued, waits_for_other(destination));
    lemma_send_nothing(sent);
    assert(sent.queued =~= Seq::empty());
    assert(sent.resolved(destination) == sent);
    assert(params =~= hardcoded_param_ids()) by {
        assert forall|i: int| 0 <= i < 9 implies params[i] == hardcoded_param_ids()[i] by {
            assert(params[i].0 == LISTENER_PARAM_IDS_START + i);
        }
    }
    assert(params.take(9) =~= params);
    lemma_params_created_hardcoded(sent, 9);
}

/// When the listener of a new context is first used, the listener and its params are registered
/// before they are connected to each other, and then the listener is connected to the destination
/// node.
pub proof fn law_listener_is_registered_before_it_is_connected<P, H>(v: BaseView<P, H>)
    requires
        v.state != AudioContextState::Closed,
        v.suspended is None,
        v.queued == param_connections::<P>(9),
        v.listener_queue == param_registrations::<P>(9).push(listener_registration()),
        !v.connections.contains(listener_connection()),
    ensures
        v.listener_present().outbox == v.outbox + outgoing_of(
            seq![listener_registration()] + param_registrations(9).reverse() + param_connections(9)
                + seq![connect_message(listener_connection())],
            false,
        ),
        v.listener_present().queued.len() == 0,
        v.listener_present().connections == v.connections.push(listener_connection()),
{
    let l = AudioNodeId(LISTENER_NODE_ID);
    let yes = waits_for::<P>(l);
    let no = waits_for_other::<P>(l);
    assert forall|i: int| 0 <= i < v.queued.len() implies yes(#[trigger] v.queued[i]) by {}
    assert forall|i: int| 0 <= i < v.queued.len() implies !no(#[trigger] v.queued[i]) by {
        assert(yes(v.queued[i]));
    }
    lemma_filter_all(v.queued, yes);
    lemma_filter_none(v.queued, no);
    let regs = v.listener_queue.reverse();
    assert(regs =~= seq![listener_registration()] + param_registrations(9).reverse());
    let a = BaseView { listener_queue: Seq::empty(), ..v }.send_all(regs);
    let b = a.resolved(l);
    assert(b.connections == v.connections);
    let c = b.connected(listener_connection());
    assert(c.outbox =~= v.outbox + outgoing_of(
        regs + param_connections(9) + seq![connect_message(listener_connection())],
        false,
    ));
}

/// Messages that are held back are handed over in order, each once: behind the request to suspend,
/// and before the request to resume. While they are held back nothing is on its way. Afterwards
/// messages are on their way at once again, and another request to resume goes alone.
///
/// This is about a channel that takes everything: both times that the outbox is sent, nothing is
/// left.
pub proof fn law_held_back_messages_are_sent_in_order<P, H>(
    v: BaseView<P, H>,
    suspend: MessageView<P>,
    messages: Seq<MessageView<P>>,
    resume: MessageView<P>,
    later: MessageView<P>,
    frames_played: &std::sync::atomic::AtomicU64,
    before: crossbeam_channel::Sender<ControlMessage<P>>,
    mid: crossbeam_channel::Sender<ControlMessage<P>>,
    after: crossbeam_channel::Sender<ControlMessage<P>>,
)
    requires
        v.state != AudioContextState::Closed,
        v.outbox.len() == 0,
        sent_without_stall(
            before,
            frames_played,
            v.suspend_messages(suspend).outbox,
            Seq::empty(),
            mid,
        ),
        sent_without_stall(
            mid,
            frames_played,
            (BaseView { outbox: Seq::empty(), ..v.suspend_messages(suspend) }).send_all(
                messages,
            ).resume_messages(resume).outbox,
            Seq::empty(),
            after,
        ),
    ensures
        ({
            let paused = BaseView { outbox: Seq::empty(), ..v.suspend_messages(suspend) };
            let holding = paused.send_all(messages);
            let resumed = BaseView { outbox: Seq::empty(), ..holding.resume_messages(resume) };
            &&& holding.outbox.len() == 0
            &&& holding.held_back() == messages
            &&& sent_in_order(
                before,
                frames_played,
                outgoing_of(seq![suspend] + messages + seq![resume], true),
                after,
            )
            &&& resumed.send_all(seq![later]).outbox == outgoing_of(seq![later], false)
            &&& resumed.resume_messages(later).outbox == outgoing_of(seq![later], true)
        }),
{
    let paused = BaseView { outbox: Seq::empty(), ..v.suspend_messages(suspend) };
    let holding = paused.send_all(messages);
    let first = v.suspend_messages(suspend).outbox;
    let second = holding.resume_messages(resume).outbox;
    assert(holding.held_back() =~= messages);
    assert(first =~= outgoing_of(seq![suspend], true));
    assert(second =~= outgoing_of(messages.push(resume), true));
    assert(first.take(first.len() as int) =~= first);
    assert(second.take(second.len() as int) =~= second);
    law_sending_goes_on_in_order(before, frames_played, first, mid, second, after);
    assert(first + second =~= outgoing_of(seq![suspend] + messages + seq![resume], true));
    let resumed = BaseView { outbox: Seq::empty(), ..holding.resume_messages(resume) };
    assert(resumed.send_all(seq![later]).outbox =~= outgoing_of(seq![later], false));
    assert(resumed.held_back().push(later) =~= seq![later]);
    assert(resumed.resume_messages(later).outbox =~= outgoing_of(seq![later], true));
}

} // verus!
