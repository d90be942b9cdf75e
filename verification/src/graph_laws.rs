//! What the operations on the audio graph do to the connections of a context, and what they tell the
//! render thread.

use vstd::prelude::*;
use crate::concrete_base::{
    BaseView, ConcreteBaseAudioContext, Connection, disconnect_messages, not_touching, selected,
    selection, unselected,
};
use crate::ids::AudioNodeId;
use crate::message::MessageView;
use crate::message_laws::puts_out;
use crate::param::AudioContextRegistration;
use crate::seqs::{lemma_filter_contains_iff, lemma_filter_no_duplicates, lemma_filter_splits};

verus! {

/// A connection is selected exactly if it agrees with all that is named, and nothing that is named is
/// ignored, whatever else is named or not.
pub proof fn law_selection_heeds_all_that_is_named(
    c: Connection,
    from: AudioNodeId,
    output: Option<usize>,
    to: Option<AudioNodeId>,
    input: Option<usize>,
    r: bool,
)
    requires
        call_ensures(Connection::is_selected, (&c, from, output, to, input), r),
    ensures
        c.from != from ==> !r,
        output is Some && c.output != output->0 ==> !r,
        to is Some && c.to != to->0 ==> !r,
        input is Some && c.input != input->0 ==> !r,
        c.from == from && (output is None || output->0 == c.output) && (to is None || to->0 == c.to)
            && (input is None || input->0 == c.input) ==> r,
{
}

/// A disconnect call removes no connection that differs in anything that it names, and every one that
/// agrees in all of it. None appears.
pub proof fn law_disconnect_removes_what_is_named<P, H>(
    context: &mut ConcreteBaseAudioContext<P, H>,
    from: AudioNodeId,
    output: Option<usize>,
    to: Option<AudioNodeId>,
    input: Option<usize>,
    c: Connection,
)
    requires
        call_ensures(
            ConcreteBaseAudioContext::<P, H>::disconnect,
            (context, from, output, to, input),
            (),
        ),
    ensures
        ({
            let before = old(context)@.connections;
            let after = final(context)@.connections;
            &&& after.contains(c) ==> before.contains(c)
            &&& before.contains(c) && c.from != from ==> after.contains(c)
            &&& before.contains(c) && output is Some && c.output != output->0 ==> after.contains(c)
            &&& before.contains(c) && to is Some && c.to != to->0 ==> after.contains(c)
            &&& before.contains(c) && input is Some && c.input != input->0 ==> after.contains(c)
            &&& c.from == from && (output is None || output->0 == c.output) && (to is None || to->0
                == c.to) && (input is None || input->0 == c.input) ==> !after.contains(c)
        }),
{
    lemma_filter_contains_iff((*context)@.connections, unselected(from, output, to, input), c);
}

/// A disconnect call tells the render thread exactly which connections are undone: there is one
/// message for each connection that is gone, and no other.
pub proof fn law_disconnect_tells_what_is_undone<P, H>(
    context: &mut ConcreteBaseAudioContext<P, H>,
    from: AudioNodeId,
    output: Option<usize>,
    to: Option<AudioNodeId>,
    input: Option<usize>,
)
    requires
        call_ensures(
            ConcreteBaseAudioContext::<P, H>::disconnect,
            (context, from, output, to, input),
            (),
        ),
        (*context)@.connections.no_duplicates(),
    ensures
        ({
            let before = old(context)@;
            let after = final(context)@;
            &&& after.connections.no_duplicates()
            &&& exists|messages: Seq<MessageView<P>>|
                {
                    &&& #[trigger] puts_out(before, after, messages)
                    &&& messages.no_duplicates()
                    &&& messages.len() == before.connections.len() - after.connections.len()
                    &&& forall|m: MessageView<P>| #[trigger]
                        messages.contains(m) <==> m is DisconnectNode && {
                            let c = Connection {
                                from: m->DisconnectNode_from,
                                output: m->DisconnectNode_output,
                                to: m->DisconnectNode_to,
                                input: m->DisconnectNode_input,
                            };
                            before.connections.contains(c) && !after.connections.contains(c)
                        }
                }
            &&& after == (BaseView {
                connections: after.connections,
                outbox: after.outbox,
                suspended: after.suspended,
                ..before
            })
        }),
{
    let before = (*context)@.connections;
    let yes = selection(from, output, to, input);
    let no = unselected(from, output, to, input);
    let gone = before.filter(yes);
    let messages = disconnect_messages::<P>(gone);
    lemma_filter_splits(before, yes, no);
    lemma_filter_no_duplicates(before, yes);
    lemma_filter_no_duplicates(before, no);
    assert(puts_out((*context)@, (*final(context))@, messages));
    assert forall|i: int, j: int|
        0 <= i < messages.len() && 0 <= j < messages.len() && i != j implies messages[i]
        != messages[j] by {
        assert(gone[i] != gone[j]);
    }
    assert forall|m: MessageView<P>| #[trigger] messages.contains(m) <==> m is DisconnectNode && {
        let c = Connection {
            from: m->DisconnectNode_from,
            output: m->DisconnectNode_output,
            to: m->DisconnectNode_to,
            input: m->DisconnectNode_input,
        };
        before.contains(c) && !(*final(context))@.connections.contains(c)
    } by {
        let c = Connection {
            from: m->DisconnectNode_from,
            output: m->DisconnectNode_output,
            to: m->DisconnectNode_to,
            input: m->DisconnectNode_input,
        };
        lemma_filter_contains_iff(before, yes, c);
        lemma_filter_contains_iff(before, no, c);
        if messages.contains(m) {
            let i = choose|i: int| 0 <= i < messages.len() && messages[i] == m;
            assert(gone[i] == c);
            assert(gone.contains(c));
        }
        if m is DisconnectNode && gone.contains(c) {
            let i = choose|i: int| 0 <= i < gone.len() && gone[i] == c;
            assert(messages[i] == m);
        }
    }
}

/// There is something to undo exactly if a connection agrees with all that is named.
pub proof fn law_something_is_connected<P, H>(
    context: ConcreteBaseAudioContext<P, H>,
    from: AudioNodeId,
    output: Option<usize>,
    to: Option<AudioNodeId>,
    input: Option<usize>,
    r: bool,
)
    requires
        call_ensures(
            ConcreteBaseAudioContext::<P, H>::is_connected,
            (&context, from, output, to, input),
            r,
        ),
    ensures
        r <==> exists|i: int|
            0 <= i < context@.connections.len() && {
                let c = #[trigger] context@.connections[i];
                &&& c.from == from
                &&& output is None || output->0 == c.output
                &&& to is None || to->0 == c.to
                &&& input is None || input->0 == c.input
            },
{
    if r {
        let i = choose|i: int|
            0 <= i < context@.connections.len() && selected(
                #[trigger] context@.connections[i],
                from,
                output,
                to,
                input,
            );
        let c = context@.connections[i];
    } else {
        assert forall|i: int| 0 <= i < context@.connections.len() implies !{
            let c = #[trigger] context@.connections[i];
            &&& c.from == from
            &&& output is None || output->0 == c.output
            &&& to is None || to->0 == c.to
            &&& input is None || input->0 == c.input
        } by {
            assert(!selected(
                context@.connections[i],
                from,
                output,
                to,
                input,
            ));
        }
    }
}

/// Once a disconnect call has returned, there is nothing left that the same call would undo.
pub proof fn law_disconnected_is_not_connected<P, H>(
    context: &mut ConcreteBaseAudioContext<P, H>,
    from: AudioNodeId,
    output: Option<usize>,
    to: Option<AudioNodeId>,
    input: Option<usize>,
    r: bool,
)
    requires
        call_ensures(
            ConcreteBaseAudioContext::<P, H>::disconnect,
            (context, from, output, to, input),
            (),
        ),
        call_ensures(
            ConcreteBaseAudioContext::<P, H>::is_connected,
            (&*final(context), from, output, to, input),
            r,
        ),
    ensures
        !r,
{
    let after = (*final(context))@.connections;
    if r {
        law_something_is_connected(*final(context), from, output, to, input, r);
        let i = choose|i: int|
            0 <= i < after.len() && {
                let c = #[trigger] after[i];
                &&& c.from == from
                &&& output is None || output->0 == c.output
                &&& to is None || to->0 == c.to
                &&& input is None || input->0 == c.input
            };
        law_disconnect_removes_what_is_named(context, from, output, to, input, after[i]);
        assert(after.contains(after[i]));
    }
}

/// After a connect call the connection is there, all others are as they were, and the render thread
/// is told of it exactly if it is new.
pub proof fn law_connect_adds_one_connection<P, H>(
    context: &mut ConcreteBaseAudioContext<P, H>,
    from: AudioNodeId,
    to: AudioNodeId,
    output: usize,
    input: usize,
    other: Connection,
)
    requires
        call_ensures(
            ConcreteBaseAudioContext::<P, H>::connect,
            (context, from, to, output, input),
            (),
        ),
    ensures
        ({
            let before = old(context)@;
            let after = final(context)@;
            let c = Connection { from, output, to, input };
            &&& after.connections.contains(c)
            &&& other != c ==> (after.connections.contains(other) <==> before.connections.contains(
                other,
            ))
            &&& before.connections.contains(c) ==> after == before
            &&& !before.connections.contains(c) ==> {
                &&& after.connections.len() == before.connections.len() + 1
                &&& puts_out(
                    before,
                    after,
                    seq![MessageView::ConnectNode { from, to, input, output }],
                )
            }
            &&& after == (BaseView {
                connections: after.connections,
                outbox: after.outbox,
                suspended: after.suspended,
                ..before
            })
        }),
{
    let before = (*context)@.connections;
    let after = (*final(context))@.connections;
    let c = Connection { from, output, to, input };
    if !before.contains(c) {
        assert(after =~= before.push(c));
        assert(after[before.len() as int] == c);
        if before.contains(other) {
            let i = choose|i: int| 0 <= i < before.len() && before[i] == other;
            assert(after[i] == other);
        }
        if after.contains(other) && other != c {
            let i = choose|i: int| 0 <= i < after.len() && after[i] == other;
            assert(before[i] == other);
        }
    }
}

/// Whether there is a connection, and how many there are, is told as it is.
pub proof fn law_connections_are_told<P, H>(
    context: ConcreteBaseAudioContext<P, H>,
    c: Connection,
    has: bool,
    n: usize,
)
    requires
        call_ensures(ConcreteBaseAudioContext::<P, H>::has_connection, (&context, &c), has),
        call_ensures(ConcreteBaseAudioContext::<P, H>::connection_count, (&context,), n),
    ensures
        has <==> context@.connections.contains(c),
        n == context@.connections.len(),
{
}

/// When the last handle of an ordinary node is dropped, its connections are forgotten, those at
/// either end, and no others; and the render thread is told so. The nodes that the context made for
/// itself (the destination, the listener and its nine params) stay as they are.
pub proof fn law_dropping_a_node_forgets_its_connections<P, H>(
    context: &mut ConcreteBaseAudioContext<P, H>,
    id: AudioNodeId,
    c: Connection,
)
    requires
        call_ensures(ConcreteBaseAudioContext::<P, H>::mark_node_dropped, (context, id), ()),
    ensures
        ({
            let before = old(context)@;
            let after = final(context)@;
            &&& id.0 <= 10 ==> after == before
            &&& id.0 > 10 ==> {
                &&& after.connections.contains(c) <==> before.connections.contains(c) && c.from
                    != id && c.to != id
                &&& puts_out(before, after, seq![MessageView::ControlHandleDropped { id }])
                &&& after == (BaseView {
                    connections: after.connections,
                    outbox: after.outbox,
                    suspended: after.suspended,
                    ..before
                })
            }
        }),
{
    lemma_filter_contains_iff((*context)@.connections, not_touching(id), c);
}

/// Which nodes a context makes for itself: the destination is number 0, the listener number 1, and
/// its params are numbers 2 to 10.
pub proof fn law_nodes_of_the_context_are_told(id: AudioNodeId, listener: bool, magic: bool)
    requires
        call_ensures(AudioNodeId::is_listener, (&id,), listener),
        call_ensures(AudioNodeId::is_magic, (&id,), magic),
    ensures
        listener <==> 1 <= id.0 <= 10,
        magic <==> id.0 <= 10,
{
}

/// The render thread is told which node can break a cycle, and nothing else happens.
pub proof fn law_cycle_breaker_is_told<P, H>(
    context: &mut ConcreteBaseAudioContext<P, H>,
    reg: AudioContextRegistration,
)
    requires
        call_ensures(ConcreteBaseAudioContext::<P, H>::mark_cycle_breaker, (context, &reg), ()),
    ensures
        ({
            let before = old(context)@;
            let after = final(context)@;
            &&& puts_out(before, after, seq![MessageView::MarkCycleBreaker { id: reg.id }])
            &&& after == (BaseView {
                outbox: after.outbox,
                suspended: after.suspended,
                ..before
            })
        }),
{
}

/// A panner node gets the listener at its hidden input, once.
pub proof fn law_panner_hears_the_listener<P, H>(
    context: &mut ConcreteBaseAudioContext<P, H>,
    panner: AudioNodeId,
)
    requires
        call_ensures(
            ConcreteBaseAudioContext::<P, H>::connect_listener_to_panner,
            (context, panner),
            (),
        ),
    ensures
        ({
            let before = old(context)@;
            let after = final(context)@;
            let c = Connection {
                from: AudioNodeId(1),
                output: 0,
                to: panner,
                input: usize::MAX,
            };
            &&& before.connections.contains(c) ==> after == before
            &&& !before.connections.contains(c) ==> {
                &&& after.connections == before.connections.push(c)
                &&& puts_out(
                    before,
                    after,
                    seq![
                        MessageView::ConnectNode {
                            from: AudioNodeId(1),
                            to: panner,
                            input: usize::MAX,
                            output: 0,
                        },
                    ],
                )
            }
            &&& after == (BaseView {
                connections: after.connections,
                outbox: after.outbox,
                suspended: after.suspended,
                ..before
            })
        }),
{
}

} // verus!
