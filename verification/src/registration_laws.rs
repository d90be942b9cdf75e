//! What registering nodes does, and what a new context consists of.

use vstd::prelude::*;
use crate::concrete_base::{
    BaseView, ConcreteBaseAudioContext, Connection, blank_context, hardcoded_ids,
    initial_channel_count, initial_context, lemma_send_all_twice, register_message, waits_for,
    waits_for_other,
};
use crate::context_laws::law_new_context;
use crate::events::{AudioContextState, EventLoop, EventLoopView};
use crate::ids::{
    AudioNodeId, AudioNodeIdProvider, IdsView, halves_of_new_queue, id_taken, ids_taken,
    node_contents, popped,
};
use crate::message::{MessageView, Outgoing, outgoing_of, outgoing_views};
use crate::message_laws::puts_out;
use crate::node::{
    ChannelConfig, ChannelCountMode, ChannelInterpretation, NodePorts, NodeProcessor,
    destination_ports, destination_ports_spec, param_ports,
};
use crate::offline::{OfflineAudioContext, new_context};
use crate::param::{
    AudioContextRegistration, AudioParam, AudioParamDescriptor, AudioParamInner, Float32,
};
use crate::seqs::{lemma_filter_contains_iff, lemma_filter_keeps_order, lemma_filter_splits};
use crate::spatial::{
    AudioListener, AudioListenerNode, AudioListenerParams, ListenerRenderer, param_ids, param_opts,
    params_created,
};

verus! {

/// Whether the requests for a connection to a node, of those that waited, are released, in the order
/// in which they waited, and all others go on waiting, in theirs.
pub open spec fn releases<P>(
    waiting: Seq<MessageView<P>>,
    id: AudioNodeId,
    released: Seq<MessageView<P>>,
    left: Seq<MessageView<P>>,
) -> bool {
    &&& released.len() + left.len() == waiting.len()
    &&& released == waiting.filter(|m: MessageView<P>| m is ConnectNode && m->ConnectNode_to == id)
    &&& left == waiting.filter(|m: MessageView<P>| !(m is ConnectNode && m->ConnectNode_to == id))
    &&& forall|m: MessageView<P>| #[trigger]
        released.contains(m) <==> waiting.contains(m) && m is ConnectNode && m->ConnectNode_to == id
    &&& forall|m: MessageView<P>| #[trigger]
        left.contains(m) <==> waiting.contains(m) && !(m is ConnectNode && m->ConnectNode_to == id)
    &&& forall|i: int, j: int|
        #![trigger released[i], released[j]]
        0 <= i < j < released.len() ==> stands_before(waiting, released[i], released[j])
    &&& forall|i: int, j: int|
        #![trigger left[i], left[j]]
        0 <= i < j < left.len() ==> stands_before(waiting, left[i], left[j])
}

/// Whether one entry of a list stands before another.
pub open spec fn stands_before<T>(s: Seq<T>, a: T, b: T) -> bool {
    exists|i: int, j: int|
        0 <= i < j < s.len() && #[trigger] s[i] == a && #[trigger] s[j] == b
}

proof fn lemma_releases<P>(waiting: Seq<MessageView<P>>, id: AudioNodeId)
    ensures
        releases(
            waiting,
            id,
            waiting.filter(waits_for(id)),
            waiting.filter(waits_for_other(id)),
        ),
{
    let yes = waits_for::<P>(id);
    let no = waits_for_other::<P>(id);
    let released = waiting.filter(yes);
    let left = waiting.filter(no);
    assert(yes =~= |m: MessageView<P>| m is ConnectNode && m->ConnectNode_to == id);
    assert(no =~= |m: MessageView<P>| !(m is ConnectNode && m->ConnectNode_to == id));
    lemma_filter_splits(waiting, yes, no);
    assert forall|m: MessageView<P>| #[trigger]
        released.contains(m) <==> waiting.contains(m) && m is ConnectNode && m->ConnectNode_to
            == id by {
        lemma_filter_contains_iff(waiting, yes, m);
    }
    assert forall|m: MessageView<P>| #[trigger]
        left.contains(m) <==> waiting.contains(m) && !(m is ConnectNode && m->ConnectNode_to
            == id) by {
        lemma_filter_contains_iff(waiting, no, m);
    }
    assert forall|i: int, j: int|
        #![trigger released[i], released[j]]
        0 <= i < j < released.len() implies stands_before(waiting, released[i], released[j]) by {
        let (a, b) = lemma_filter_keeps_order(waiting, yes, i, j);
        assert(waiting[a] == released[i] && waiting[b] == released[j]);
    }
    assert forall|i: int, j: int|
        #![trigger left[i], left[j]]
        0 <= i < j < left.len() implies stands_before(waiting, left[i], left[j]) by {
        let (a, b) = lemma_filter_keeps_order(waiting, no, i, j);
        assert(waiting[a] == left[i] && waiting[b] == left[j]);
    }
}

/// Whether a node was registered: the render thread is told of it, with the id that comes back when
/// the node is gone, and then of the connections that waited for it. The listener and its params
/// (numbers 1 to 10) are kept for later instead. Nothing else changes.
pub open spec fn registers<P, H>(
    before: BaseView<P, H>,
    after: BaseView<P, H>,
    id: AudioNodeId,
    node: NodeProcessor<P>,
    ports: NodePorts,
) -> bool {
    let message = MessageView::RegisterNode {
        id,
        reclaim_id: seq![id.0],
        node,
        inputs: ports.inputs,
        outputs: ports.outputs,
        channel_config: ports.channel_config,
    };
    if 1 <= id.0 <= 10 {
        &&& after.listener_queue.len() == before.listener_queue.len() + 1
        &&& after.listener_queue.drop_last() == before.listener_queue
        &&& after.listener_queue.last() == message
        &&& after == (BaseView { listener_queue: after.listener_queue, ..before })
    } else {
        &&& exists|released: Seq<MessageView<P>>|
            {
                &&& #[trigger] releases(before.queued, id, released, after.queued)
                &&& puts_out(before, after, seq![message] + released)
            }
        &&& after == (BaseView {
            queued: after.queued,
            outbox: after.outbox,
            suspended: after.suspended,
            ..before
        })
    }
}

proof fn lemma_registers<P, H>(
    v: BaseView<P, H>,
    id: AudioNodeId,
    node: NodeProcessor<P>,
    ports: NodePorts,
)
    ensures
        registers(v, v.registered(id, node, ports), id, node, ports),
{
    let after = v.registered(id, node, ports);
    let message = MessageView::RegisterNode {
        id,
        reclaim_id: seq![id.0],
        node,
        inputs: ports.inputs,
        outputs: ports.outputs,
        channel_config: ports.channel_config,
    };
    if 1 <= id.0 <= 10 {
        assert(after.listener_queue.drop_last() =~= v.listener_queue);
    } else {
        let released = v.queued.filter(waits_for(id));
        lemma_releases(v.queued, id);
        assert(after.queued == v.queued.filter(waits_for_other(id)));
        assert(releases(v.queued, id, released, after.queued));
        if v.suspended is Some && v.state != AudioContextState::Closed {
            assert(after.suspended->0 =~= v.suspended->0 + (seq![message] + released));
        }
        assert(puts_out(v, after, seq![message] + released));
    }
}

/// The connections that waited for a node are released, in order, and nothing else happens.
pub proof fn law_waiting_connections_are_released<P, H>(
    context: &mut ConcreteBaseAudioContext<P, H>,
    id: AudioNodeId,
)
    requires
        call_ensures(
            ConcreteBaseAudioContext::<P, H>::resolve_queued_control_msgs,
            (context, id),
            (),
        ),
    ensures
        exists|released: Seq<MessageView<P>>|
            {
                &&& #[trigger] releases(
                    old(context)@.queued,
                    id,
                    released,
                    final(context)@.queued,
                )
                &&& puts_out(old(context)@, final(context)@, released)
            },
        final(context)@ == (BaseView {
            queued: final(context)@.queued,
            outbox: final(context)@.outbox,
            suspended: final(context)@.suspended,
            ..old(context)@
        }),
{
    let v = (*context)@;
    let released = v.queued.filter(waits_for(id));
    lemma_releases(v.queued, id);
    assert(releases(v.queued, id, released, final(context)@.queued));
    assert(puts_out(v, final(context)@, released));
}

/// A node that is registered is the one that the render thread is told of.
pub proof fn law_registered_node_is_told<P, H>(
    context: &mut ConcreteBaseAudioContext<P, H>,
    registration: AudioContextRegistration,
    node: NodeProcessor<P>,
    ports: NodePorts,
)
    requires
        call_ensures(
            ConcreteBaseAudioContext::<P, H>::register_node,
            (context, &registration, node, ports),
            (),
        ),
    ensures
        registers(old(context)@, final(context)@, registration.id, node, ports),
{
    lemma_registers((*context)@, registration.id, node, ports);
}

/// Whether an id has been taken: a decommissioned one, if the queue hands one out in one attempt,
/// which leaves the counter alone; otherwise the one on the counter, which then moves on by one (from
/// the largest number to zero).
pub open spec fn takes_id(before: IdsView, id: AudioNodeId, after: IdsView) -> bool {
    let fresh = {
        &&& id.0 == before.next_id
        &&& before.next_id < u64::MAX ==> after.next_id == before.next_id + 1
        &&& before.next_id == u64::MAX ==> after.next_id == 0
    };
    &&& before.consumer is None ==> after.consumer is None && fresh
    &&& before.consumer matches Some(queue) ==> exists|
        node: Option<llq::Node<u64>>,
        left: llq::Consumer<u64>,
    |
        {
            &&& #[trigger] popped(queue, node, left)
            &&& after.consumer == Some(left)
            &&& node is None ==> fresh
            &&& node matches Some(n) ==> {
                &&& id.0 == node_contents(n)[0]
                &&& after.next_id == before.next_id
            }
        }
}

proof fn lemma_takes_id(before: IdsView, id: AudioNodeId, after: IdsView)
    requires
        id_taken(before, id, after),
    ensures
        takes_id(before, id, after),
{
}

/// Whether ids have been taken one after the other, each where the one before has left the provider.
pub open spec fn takes_ids(states: Seq<IdsView>, ids: Seq<AudioNodeId>) -> bool {
    &&& states.len() == ids.len() + 1
    &&& forall|i: int| 0 <= i < ids.len() ==> takes_id(#[trigger] states[i], ids[i], states[i + 1])
}

proof fn lemma_takes_ids(before: IdsView, ids: Seq<AudioNodeId>, after: IdsView) -> (states: Seq<
    IdsView,
>)
    requires
        ids_taken(before, ids, after),
    ensures
        takes_ids(states, ids),
        states[0] == before,
        states[ids.len() as int] == after,
    decreases ids.len(),
{
    if ids.len() == 0 {
        seq![before]
    } else {
        let between = choose|between: IdsView| #[trigger]
            id_taken(between, ids.last(), after) && ids_taken(before, ids.drop_last(), between);
        let earlier = lemma_takes_ids(before, ids.drop_last(), between);
        let states = earlier.push(after);
        lemma_takes_id(between, ids.last(), after);
        assert forall|i: int| 0 <= i < ids.len() implies takes_id(
            #[trigger] states[i],
            ids[i],
            states[i + 1],
        ) by {
            assert(states[i] == earlier[i]);
            if i < ids.len() - 1 {
                assert(states[i + 1] == earlier[i + 1]);
                assert(ids.drop_last()[i] == ids[i]);
            }
        }
        states
    }
}

/// A new node gets the id that is reserved for it, and is registered under it.
pub proof fn law_new_node_is_registered_under_its_id<P, H>(
    context: &mut ConcreteBaseAudioContext<P, H>,
    node: NodeProcessor<P>,
    ports: NodePorts,
    r: AudioContextRegistration,
)
    requires
        call_ensures(
            ConcreteBaseAudioContext::<P, H>::register_processor,
            (context, node, ports),
            r,
        ),
    ensures
        takes_id(old(context)@.ids, r.id, final(context)@.ids),
        registers(
            (BaseView { ids: final(context)@.ids, ..old(context)@ }),
            final(context)@,
            r.id,
            node,
            ports,
        ),
{
    lemma_takes_id((*context)@.ids, r.id, final(context)@.ids);
    lemma_registers((BaseView { ids: final(context)@.ids, ..(*context)@ }), r.id, node, ports);
}

/// Reserving an id changes nothing but the provider of ids.
pub proof fn law_reserving_an_id_changes_nothing_else<P, H>(
    context: &mut ConcreteBaseAudioContext<P, H>,
    r: AudioContextRegistration,
)
    requires
        call_ensures(ConcreteBaseAudioContext::<P, H>::new_registration, (context,), r),
    ensures
        final(context)@ == (BaseView { ids: final(context)@.ids, ..old(context)@ }),
        takes_id(old(context)@.ids, r.id, final(context)@.ids),
{
    lemma_takes_id((*context)@.ids, r.id, final(context)@.ids);
}

/// Registering a node reserves an id for it, and hands that to the function that makes the node. What
/// the function makes is registered under the id, after all that the function did to the context; and
/// the node is handed out as it was made.
pub proof fn law_made_node_is_registered_under_its_id<
    P,
    H,
    T,
    F: FnOnce(&mut ConcreteBaseAudioContext<P, H>, AudioContextRegistration) -> (
        T,
        NodeProcessor<P>,
        NodePorts,
    ),
>(context: &mut ConcreteBaseAudioContext<P, H>, f: F, r: T)
    requires
        call_ensures(ConcreteBaseAudioContext::<P, H>::register::<T, F>, (context, f), r),
    ensures
        exists|
            given: &mut ConcreteBaseAudioContext<P, H>,
            registration: AudioContextRegistration,
            made: (T, NodeProcessor<P>, NodePorts),
        |
            {
                &&& #[trigger] call_ensures(f, (given, registration), made)
                &&& takes_id(old(context)@.ids, registration.id, (*given)@.ids)
                &&& (*given)@ == (BaseView { ids: (*given)@.ids, ..old(context)@ })
                &&& registers(
                    (*final(given))@,
                    final(context)@,
                    registration.id,
                    made.1,
                    made.2,
                )
                &&& r == made.0
            },
{
    let (given, registration, made) = choose|
        given: &mut ConcreteBaseAudioContext<P, H>,
        registration: AudioContextRegistration,
        made: (T, NodeProcessor<P>, NodePorts),
    |
        {
            &&& #[trigger] call_ensures(f, (given, registration), made)
            &&& (*given)@ == (BaseView { ids: (*given)@.ids, ..(*context)@ })
            &&& id_taken((*context)@.ids, registration.id, (*given)@.ids)
            &&& final(context)@ == (*final(given))@.registered(registration.id, made.1, made.2)
            &&& r == made.0
        };
    lemma_takes_id((*context)@.ids, registration.id, (*given)@.ids);
    lemma_registers((*final(given))@, registration.id, made.1, made.2);
}

/// The connection of a param goes from the param to the hidden input of its node, and waits behind
/// all others.
pub proof fn law_param_connection_waits_for_its_node<P, H>(
    context: &mut ConcreteBaseAudioContext<P, H>,
    param: AudioParam,
    node: AudioNodeId,
)
    requires
        call_ensures(
            ConcreteBaseAudioContext::<P, H>::queue_audio_param_connect,
            (context, &param, node),
            (),
        ),
    ensures
        final(context)@.queued.len() == old(context)@.queued.len() + 1,
        final(context)@.queued.drop_last() == old(context)@.queued,
        final(context)@.queued.last() == (MessageView::<P>::ConnectNode {
            from: param.registration.id,
            to: node,
            input: usize::MAX,
            output: 0,
        }),
        final(context)@ == (BaseView { queued: final(context)@.queued, ..old(context)@ }),
{
    assert(final(context)@.queued.drop_last() =~= (*context)@.queued);
}

/// Whether a param was created for a node: it is registered as a node with one mono input and output,
/// and its connection to the hidden input of its node waits behind all others.
pub open spec fn creates_param<P, H>(
    before: BaseView<P, H>,
    after: BaseView<P, H>,
    param: AudioParam,
    node: AudioNodeId,
) -> bool {
    &&& after.queued.len() > 0
    &&& after.queued.last() == (MessageView::<P>::ConnectNode {
        from: param.registration.id,
        to: node,
        input: usize::MAX,
        output: 0,
    })
    &&& registers(
        before,
        BaseView { queued: after.queued.drop_last(), ..after },
        param.registration.id,
        NodeProcessor::Param(param.raw_parts),
        NodePorts {
            inputs: 1,
            outputs: 1,
            channel_config: ChannelConfig {
                channel_count: 1,
                channel_count_mode: ChannelCountMode::Explicit,
                channel_interpretation: ChannelInterpretation::Discrete,
            },
        },
    )
}

proof fn lemma_creates_param<P, H>(v: BaseView<P, H>, param: AudioParam, node: AudioNodeId)
    ensures
        creates_param(
            v,
            v.param_created(param.registration.id, param.raw_parts, node),
            param,
            node,
        ),
{
    let after = v.param_created(param.registration.id, param.raw_parts, node);
    let ports = NodePorts {
        inputs: 1,
        outputs: 1,
        channel_config: ChannelConfig {
            channel_count: 1,
            channel_count_mode: ChannelCountMode::Explicit,
            channel_interpretation: ChannelInterpretation::Discrete,
        },
    };
    let processor = NodeProcessor::Param(param.raw_parts);
    lemma_registers(v, param.registration.id, processor, ports);
    let mid = v.registered(param.registration.id, processor, ports);
    assert(after.queued.drop_last() =~= mid.queued);
    assert((BaseView { queued: after.queued.drop_last(), ..after }) == mid);
}

/// A param has the settings that were asked for, and is created for the node that was named.
pub proof fn law_param_is_created_as_asked_for<P, H>(
    context: &mut ConcreteBaseAudioContext<P, H>,
    opts: AudioParamDescriptor,
    dest: AudioContextRegistration,
    r: AudioParam,
)
    requires
        call_ensures(
            ConcreteBaseAudioContext::<P, H>::create_audio_param,
            (context, opts, &dest),
            r,
        ),
    ensures
        r.raw_parts.automation_rate == opts.automation_rate,
        r.raw_parts.default_value == opts.default_value,
        r.raw_parts.min_value == opts.min_value,
        r.raw_parts.max_value == opts.max_value,
        takes_id(old(context)@.ids, r.registration.id, final(context)@.ids),
        creates_param(
            (BaseView { ids: final(context)@.ids, ..old(context)@ }),
            final(context)@,
            r,
            dest.id,
        ),
{
    lemma_takes_id((*context)@.ids, r.registration.id, final(context)@.ids);
    lemma_creates_param((BaseView { ids: final(context)@.ids, ..(*context)@ }), r, dest.id);
}

/// Whether a listener was created: first its nine params, one after the other, each for the listener,
/// and then the listener itself, with an output for each param.
pub open spec fn creates_listener<P, H>(
    states: Seq<BaseView<P, H>>,
    params: Seq<AudioParam>,
    listener: AudioNodeId,
    after: BaseView<P, H>,
) -> bool {
    &&& params.len() == 9
    &&& states.len() == 10
    &&& forall|i: int|
        0 <= i < 9 ==> creates_param(#[trigger] states[i], states[i + 1], params[i], listener)
    &&& registers(
        states[9],
        after,
        listener,
        NodeProcessor::Listener,
        NodePorts {
            inputs: 0,
            outputs: 9,
            channel_config: ChannelConfig {
                channel_count: 1,
                channel_count_mode: ChannelCountMode::Explicit,
                channel_interpretation: ChannelInterpretation::Discrete,
            },
        },
    )
}

/// Creating a listener registers its params before the listener itself, and changes nothing else.
pub proof fn law_listener_is_created_with_its_params<P, H>(
    context: &mut ConcreteBaseAudioContext<P, H>,
    r: AudioListenerNode,
    registration: &AudioContextRegistration,
    fields: AudioListener,
)
    requires
        call_ensures(AudioListenerNode::new::<P, H>, (context,), r),
        call_ensures(AudioListenerNode::registration, (&r,), registration),
        call_ensures(AudioListenerNode::into_fields, (r,), fields),
    ensures
        exists|states: Seq<BaseView<P, H>>| #[trigger]
            creates_listener(states, fields@, registration.id, final(context)@) && states[0] == (
            BaseView { ids: final(context)@.ids, ..old(context)@ }),
        exists|states: Seq<IdsView>, ids: Seq<AudioNodeId>|
            {
                &&& #[trigger] takes_ids(states, ids)
                &&& states[0] == old(context)@.ids
                &&& states.last() == final(context)@.ids
                &&& ids.len() == 10
                &&& ids[0] == registration.id
                &&& forall|i: int| 0 <= i < 9 ==> (#[trigger] fields@[i]).registration.id == ids[i + 1]
            },
{
    let v = BaseView { ids: final(context)@.ids, ..(*context)@ };
    let params = fields@;
    let ids = param_ids(params);
    let listener = registration.id;
    let taken = seq![listener] + ids;
    let providers = lemma_takes_ids((*context)@.ids, taken, final(context)@.ids);
    assert(takes_ids(providers, taken));
    let states = Seq::new(10, |k: int| params_created(v, ids.take(k), listener));
    assert(ids.take(0) =~= Seq::empty());
    assert(ids.take(9) =~= ids);
    assert forall|i: int| 0 <= i < 9 implies creates_param(
        #[trigger] states[i],
        states[i + 1],
        params[i],
        listener,
    ) by {
        assert(ids.take(i + 1).drop_last() =~= ids.take(i));
        assert(ids.take(i + 1).last() == params[i].registration.id);
        assert(r.params()[i].raw_parts == params[i].raw_parts);
        lemma_creates_param(states[i], params[i], listener);
    }
    let ports = NodePorts {
        inputs: 0,
        outputs: 9,
        channel_config: ChannelConfig {
            channel_count: 1,
            channel_count_mode: ChannelCountMode::Explicit,
            channel_interpretation: ChannelInterpretation::Discrete,
        },
    };
    lemma_registers(states[9], listener, NodeProcessor::Listener, ports);
    assert(creates_listener(states, params, listener, final(context)@));
}

/// A decommissioned id is used again as it is, and leaves the counter alone. Without one, the counter
/// gives the id, and moves on by one (from the largest number to zero).
pub proof fn law_ids_are_reused_or_counted(
    provider: &mut AudioNodeIdProvider,
    reclaimed: Option<u64>,
    id: AudioNodeId,
)
    requires
        call_ensures(AudioNodeIdProvider::assign, (provider, reclaimed), id),
    ensures
        reclaimed is Some ==> id.0 == reclaimed->0 && final(provider)@ == old(provider)@,
        reclaimed is None ==> {
            &&& id.0 == old(provider)@.next_id
            &&& old(provider)@.next_id < u64::MAX ==> final(provider)@.next_id
                == old(provider)@.next_id + 1
            &&& old(provider)@.next_id == u64::MAX ==> final(provider)@.next_id == 0
            &&& final(provider)@.consumer == old(provider)@.consumer
        },
{
}

/// A new provider counts from zero, and takes decommissioned ids from the queue that it was given.
pub proof fn law_ids_start_at_zero(consumer: llq::Consumer<u64>, r: AudioNodeIdProvider)
    requires
        call_ensures(AudioNodeIdProvider::new, (consumer,), r),
    ensures
        r@.next_id == 0,
        r@.consumer == Some(consumer),
{
}

/// An id that is taken is a decommissioned one, if the queue hands one out in one attempt; otherwise it
/// is the one on the counter, which then moves on.
pub proof fn law_taken_id_is_fresh_or_reused(provider: &mut AudioNodeIdProvider, id: AudioNodeId)
    requires
        call_ensures(AudioNodeIdProvider::get, (provider,), id),
    ensures
        takes_id(old(provider)@, id, final(provider)@),
{
    lemma_takes_id((*provider)@, id, final(provider)@);
}

/// The destination has one input and one output, with exactly the channels that it is given, for
/// speakers. A param is mono.
pub proof fn law_ports_of_the_built_in_nodes(channel_count: usize, d: NodePorts, p: NodePorts)
    requires
        call_ensures(destination_ports, (channel_count,), d),
        call_ensures(param_ports, (), p),
    ensures
        d.inputs == 1 && d.outputs == 1,
        d.channel_config.channel_count == channel_count,
        d.channel_config.channel_count_mode is Explicit,
        d.channel_config.channel_interpretation is Speakers,
        p.inputs == 1 && p.outputs == 1,
        p.channel_config.channel_count == 1,
        p.channel_config.channel_count_mode is Explicit,
        p.channel_config.channel_interpretation is Discrete,
{
}

/// A new context has the settings that it was made with. Its destination has, in an offline context,
/// all the channels of the context, and in an online context two of them, or the only one. No node is
/// connected yet, nothing is held back, and what was on its way still is.
pub proof fn law_new_context_has_its_settings<P, H>(
    sample_rate: Float32,
    max_channel_count: usize,
    state: AudioContextState,
    render_channel: Vec<Outgoing<P>>,
    event_loop: EventLoop<H>,
    offline: bool,
    consumer: llq::Consumer<u64>,
    r: ConcreteBaseAudioContext<P, H>,
)
    requires
        call_ensures(
            ConcreteBaseAudioContext::<P, H>::new,
            (sample_rate, max_channel_count, state, render_channel, event_loop, offline, consumer),
            r,
        ),
    ensures
        r@.sample_rate == sample_rate,
        r@.max_channel_count == max_channel_count,
        r@.state == state,
        r@.offline == offline,
        r@.events == event_loop@,
        r@.suspended is None,
        r@.connections.len() == 0,
        r@.listener_params is Some,
        offline ==> r@.destination_channel_config.channel_count == max_channel_count,
        !offline && max_channel_count >= 2 ==> r@.destination_channel_config.channel_count == 2,
        !offline && max_channel_count < 2 ==> r@.destination_channel_config.channel_count
            == max_channel_count,
        r@.destination_channel_config.channel_count_mode is Explicit,
        r@.destination_channel_config.channel_interpretation is Speakers,
{
}

/// Whether a param of the listener has its default settings: it is computed per sample, takes any
/// finite number, and starts at the origin, looking down the negative z axis (param 5 is minus one)
/// with the head up along the y axis (param 7 is one).
pub open spec fn is_listener_default(inner: AudioParamInner, i: int) -> bool {
    &&& inner.automation_rate is A
    &&& inner.min_value.bits == 0xff7f_ffffu32
    &&& inner.max_value.bits == 0x7f7f_ffffu32
    &&& i == 5 ==> inner.default_value.bits == 0xbf80_0000u32
    &&& i == 7 ==> inner.default_value.bits == 0x3f80_0000u32
    &&& i != 5 && i != 7 ==> inner.default_value.bits == 0u32
}

/// Whether a message registers a node that the context makes for itself, under a number, with inputs
/// and outputs, and as many channels as said.
pub open spec fn registers_own_node<P>(
    m: MessageView<P>,
    number: int,
    inputs: int,
    outputs: int,
    channels: int,
) -> bool {
    &&& m is RegisterNode
    &&& m->RegisterNode_id.0 == number
    &&& m->reclaim_id.len() == 1
    &&& m->reclaim_id[0] == number
    &&& m->inputs == inputs
    &&& m->outputs == outputs
    &&& m->channel_config.channel_count == channels
    &&& m->channel_config.channel_count_mode is Explicit
}

proof fn lemma_new_context<P, H>(
    blank: BaseView<P, H>,
    destination: AudioNodeId,
    listener: AudioNodeId,
    params: Seq<AudioNodeId>,
)
    requires
        blank.queued.len() == 0,
        blank.listener_queue.len() == 0,
        params.len() == 9,
        hardcoded_ids(destination, listener, params),
    ensures
        ({
            let v = initial_context(blank, destination, listener, params);
            &&& v.queued.len() == 9
            &&& forall|i: int|
                0 <= i < 9 ==> #[trigger] v.queued[i] == (MessageView::<P>::ConnectNode {
                    from: AudioNodeId((2 + i) as u64),
                    to: AudioNodeId(1),
                    input: usize::MAX,
                    output: 0,
                })
            &&& v.listener_queue.len() == 10
            &&& forall|i: int|
                0 <= i < 9 ==> {
                    &&& registers_own_node(#[trigger] v.listener_queue[i], 2 + i, 1, 1, 1)
                    &&& v.listener_queue[i]->node is Param
                    &&& is_listener_default(v.listener_queue[i]->node->Param_0, i)
                    &&& v.listener_queue[i]->channel_config.channel_interpretation is Discrete
                }
            &&& registers_own_node(v.listener_queue[9], 1, 0, 9, 1)
            &&& v.listener_queue[9]->node is Listener
            &&& v.listener_queue[9]->channel_config.channel_interpretation is Discrete
            &&& v.listener_params is Some
            &&& forall|i: int|
                0 <= i < 9 ==> is_listener_default(#[trigger] v.listener_params->0@[i], i)
            &&& v.outbox == blank.send_all(
                seq![
                    register_message(
                        AudioNodeId(0),
                        NodeProcessor::Destination,
                        destination_ports_spec(
                            initial_channel_count(blank.max_channel_count, blank.offline),
                        ),
                    ),
                ],
            ).outbox
        }),
{
    law_new_context(blank, destination, listener, params);
}

/// A new context registers its destination node right away, as number 0 with the channels of its
/// settings. The listener and its nine params are kept for later, as numbers 1 and 2 to 10, with
/// their default settings; and so are the connections of the params to the hidden input of the
/// listener. That is so as long as no decommissioned id gets in the way, which the counter tells.
pub proof fn law_new_context_registers_its_nodes<P, H>(
    sample_rate: Float32,
    max_channel_count: usize,
    state: AudioContextState,
    render_channel: Vec<Outgoing<P>>,
    event_loop: EventLoop<H>,
    offline: bool,
    consumer: llq::Consumer<u64>,
    r: ConcreteBaseAudioContext<P, H>,
)
    requires
        call_ensures(
            ConcreteBaseAudioContext::<P, H>::new,
            (sample_rate, max_channel_count, state, render_channel, event_loop, offline, consumer),
            r,
        ),
        r@.ids.next_id == 11,
    ensures
        ({
            let n = render_channel@.len();
            let first = r@.outbox[n as int];
            &&& state is Closed ==> r@.outbox.len() == n
            &&& !(state is Closed) ==> {
                &&& r@.outbox.len() == n + 1
                &&& !first.even_after_stall
                &&& registers_own_node(
                    first.message,
                    0,
                    1,
                    1,
                    r@.destination_channel_config.channel_count as int,
                )
                &&& first.message->node is Destination
                &&& first.message->channel_config == r@.destination_channel_config
            }
            &&& forall|i: int| 0 <= i < n ==> #[trigger] r@.outbox[i] == render_channel@[i]@
        }),
        r@.queued.len() == 9,
        forall|i: int|
            0 <= i < 9 ==> #[trigger] r@.queued[i] == (MessageView::<P>::ConnectNode {
                from: AudioNodeId((2 + i) as u64),
                to: AudioNodeId(1),
                input: usize::MAX,
                output: 0,
            }),
        r@.listener_queue.len() == 10,
        forall|i: int|
            0 <= i < 9 ==> {
                &&& registers_own_node(#[trigger] r@.listener_queue[i], 2 + i, 1, 1, 1)
                &&& r@.listener_queue[i]->node is Param
                &&& is_listener_default(r@.listener_queue[i]->node->Param_0, i)
                &&& r@.listener_queue[i]->channel_config.channel_interpretation is Discrete
            },
        registers_own_node(r@.listener_queue[9], 1, 0, 9, 1),
        r@.listener_queue[9]->node is Listener,
        r@.listener_queue[9]->channel_config.channel_interpretation is Discrete,
        forall|i: int| 0 <= i < 9 ==> is_listener_default(#[trigger] r@.listener_params->0@[i], i),
{
    let blank = blank_context(
        sample_rate,
        max_channel_count,
        state,
        outgoing_views(render_channel@),
        event_loop@,
        offline,
        r@.ids,
    );
    let (destination, listener, params) = choose|
        destination: AudioNodeId,
        listener: AudioNodeId,
        params: Seq<AudioNodeId>,
    |
        {
            &&& params.len() == 9
            &&& r@ == #[trigger] initial_context(blank, destination, listener, params)
            &&& hardcoded_ids(destination, listener, params)
        };
    lemma_new_context(blank, destination, listener, params);
}

/// Whether all that was on its way, or kept for the listener, is still so, at the same place, and the
/// destination is as it was.
spec fn keeps_messages<P, H>(before: BaseView<P, H>, after: BaseView<P, H>) -> bool {
    &&& after.destination_channel_config == before.destination_channel_config
    &&& before.outbox.len() <= after.outbox.len()
    &&& forall|i: int|
        0 <= i < before.outbox.len() ==> #[trigger] after.outbox[i] == before.outbox[i]
    &&& before.listener_queue.len() <= after.listener_queue.len()
    &&& forall|i: int|
        0 <= i < before.listener_queue.len() ==> #[trigger] after.listener_queue[i]
            == before.listener_queue[i]
}

proof fn lemma_params_keep_messages<P, H>(
    v: BaseView<P, H>,
    ids: Seq<AudioNodeId>,
    listener: AudioNodeId,
)
    ensures
        keeps_messages(v, params_created(v, ids, listener)),
    decreases ids.len(),
{
    if ids.len() > 0 {
        lemma_params_keep_messages(v, ids.drop_last(), listener);
    }
}

/// Whether a context has registered its destination node, as one with as many channels as said: the
/// message is the first one behind the `n` that were on their way, or the first one that is kept for
/// the listener, should the node have got an id of the listener.
pub open spec fn registers_destination<P, H>(v: BaseView<P, H>, n: int, channels: int) -> bool {
    exists|m: MessageView<P>, id: int|
        {
            &&& #[trigger] registers_own_node(m, id, 1, 1, channels)
            &&& m->node is Destination
            &&& m->channel_config == v.destination_channel_config
            &&& 1 <= id <= 10 ==> v.listener_queue.len() > 0 && m == v.listener_queue[0]
            &&& !(1 <= id <= 10) ==> v.outbox.len() > n && m == v.outbox[n].message
        }
}

proof fn lemma_registers_destination<P, H>(
    blank: BaseView<P, H>,
    destination: AudioNodeId,
    listener: AudioNodeId,
    params: Seq<AudioNodeId>,
)
    requires
        blank.state != AudioContextState::Closed,
        blank.suspended is None,
        blank.listener_queue.len() == 0,
        blank.destination_channel_config == destination_ports_spec(
            initial_channel_count(blank.max_channel_count, blank.offline),
        ).channel_config,
    ensures
        registers_destination(
            initial_context(blank, destination, listener, params),
            blank.outbox.len() as int,
            blank.destination_channel_config.channel_count as int,
        ),
{
    let ports = destination_ports_spec(
        initial_channel_count(blank.max_channel_count, blank.offline),
    );
    let first = blank.registered(destination, NodeProcessor::Destination, ports);
    lemma_params_keep_messages(first, params, listener);
    let v = initial_context(blank, destination, listener, params);
    assert(keeps_messages(first, v));
    let message = register_message::<P>(destination, NodeProcessor::Destination, ports);
    let n = blank.outbox.len() as int;
    if 1 <= destination.0 <= 10 {
        assert(first.listener_queue[0] == message);
        assert(v.listener_queue[0] == message);
    } else {
        assert(first.outbox[n].message == message);
        assert(v.outbox[n].message == message);
    }
    assert(registers_own_node(
        message,
        destination.0 as int,
        1,
        1,
        blank.destination_channel_config.channel_count as int,
    ));
}

/// Whatever ids its nodes get, a new context that is not closed registers its destination node before
/// all others, with the channels of its settings: all that it was made with if it renders into a
/// buffer, and at most two of them otherwise. It takes eleven ids from a new provider, which heeds the
/// queue that the context was made with.
pub proof fn law_new_context_registers_its_destination<P, H>(
    sample_rate: Float32,
    max_channel_count: usize,
    state: AudioContextState,
    render_channel: Vec<Outgoing<P>>,
    event_loop: EventLoop<H>,
    offline: bool,
    consumer: llq::Consumer<u64>,
    r: ConcreteBaseAudioContext<P, H>,
)
    requires
        call_ensures(
            ConcreteBaseAudioContext::<P, H>::new,
            (sample_rate, max_channel_count, state, render_channel, event_loop, offline, consumer),
            r,
        ),
        !(state is Closed),
    ensures
        ({
            let channels = if offline || max_channel_count < 2 {
                max_channel_count as int
            } else {
                2
            };
            &&& registers_destination(r@, render_channel@.len() as int, channels)
            &&& r@.destination_channel_config.channel_count == channels
        }),
        exists|states: Seq<IdsView>, ids: Seq<AudioNodeId>|
            {
                &&& #[trigger] takes_ids(states, ids)
                &&& states[0] == (IdsView { next_id: 0, consumer: Some(consumer) })
                &&& states.last() == r@.ids
                &&& ids.len() == 11
            },
{
    let blank = blank_context(
        sample_rate,
        max_channel_count,
        state,
        outgoing_views(render_channel@),
        event_loop@,
        offline,
        r@.ids,
    );
    let (destination, listener, params) = choose|
        destination: AudioNodeId,
        listener: AudioNodeId,
        params: Seq<AudioNodeId>,
    |
        {
            &&& params.len() == 9
            &&& r@ == #[trigger] initial_context(blank, destination, listener, params)
            &&& ids_taken(
                IdsView { next_id: 0, consumer: Some(consumer) },
                seq![destination, listener] + params,
                r@.ids,
            )
        };
    lemma_registers_destination(blank, destination, listener, params);
    assert(blank.outbox.len() == render_channel@.len());
    let ids = seq![destination, listener] + params;
    let states = lemma_takes_ids(IdsView { next_id: 0, consumer: Some(consumer) }, ids, r@.ids);
    assert(takes_ids(states, ids));
}

/// A new offline context renders into a buffer of the length and the channels that it was made with.
/// It is suspended; nothing is rendered, scheduled or claimed yet. The audio graph goes to the render
/// thread first, and then its destination node, with all the channels of the buffer.
pub proof fn law_new_offline_context<P, H, W, C, G: FnOnce(llq::Producer<u64>) -> P>(
    number_of_channels: usize,
    length: usize,
    sample_rate: Float32,
    graph: G,
    r: OfflineAudioContext<P, H, W, C>,
)
    requires
        call_ensures(
            OfflineAudioContext::<P, H, W, C>::new::<G>,
            (number_of_channels, length, sample_rate, graph),
            r,
        ),
    ensures
        r@.length == length,
        r@.rendered_frames == 0,
        r@.incremental is None,
        r@.rendered is None,
        r@.renderer is Some,
        r@.renderer->0.suspend_promises.len() == 0,
        r@.renderer->0.suspend_callbacks.len() == 0,
        r@.base.max_channel_count == number_of_channels,
        r@.base.sample_rate == sample_rate,
        r@.base.offline,
        r@.base.state is Suspended,
        r@.base.suspended is None,
        r@.base.connections.len() == 0,
        r@.base.events.pending.len() == 0,
        r@.base.events.on_state_change is None,
        r@.base.events.on_complete is None,
        r@.base.destination_channel_config.channel_count == number_of_channels,
        r@.base.destination_channel_config.channel_count_mode is Explicit,
        r@.base.destination_channel_config.channel_interpretation is Speakers,
        r@.base.outbox.len() > 0,
        r@.base.outbox[0].message is Startup,
        exists|
            halves: (llq::Producer<u64>, llq::Consumer<u64>),
            states: Seq<IdsView>,
            ids: Seq<AudioNodeId>,
        |
            {
                &&& halves_of_new_queue(halves)
                &&& #[trigger] call_ensures(
                    graph,
                    (halves.0,),
                    r@.base.outbox[0].message->graph,
                )
                &&& #[trigger] takes_ids(states, ids)
                &&& states[0] == (IdsView { next_id: 0, consumer: Some(halves.1) })
                &&& states.last() == r@.base.ids
                &&& ids.len() == 11
            },
        registers_destination(r@.base, 1, number_of_channels as int),
        r@.base.ids.next_id == 11 ==> {
            &&& r@.base.outbox.len() == 2
            &&& registers_own_node(
                r@.base.outbox[1].message,
                0,
                1,
                1,
                number_of_channels as int,
            )
            &&& r@.base.outbox[1].message->node is Destination
            &&& r@.base.outbox[1].message->channel_config == r@.base.destination_channel_config
            &&& r@.base.queued.len() == 9
            &&& r@.base.listener_queue.len() == 10
        },
{
    let (halves, started, destination, listener, params) = choose|
        halves: (llq::Producer<u64>, llq::Consumer<u64>),
        started: P,
        destination: AudioNodeId,
        listener: AudioNodeId,
        params: Seq<AudioNodeId>,
    |
        {
            &&& halves_of_new_queue(halves)
            &&& #[trigger] call_ensures(graph, (halves.0,), started)
            &&& params.len() == 9
            &&& r@ == new_context::<P, H, W, C>(
                #[trigger] initial_context(
                    blank_context(
                        sample_rate,
                        number_of_channels,
                        AudioContextState::Suspended,
                        outgoing_of(seq![MessageView::Startup { graph: started }], false),
                        EventLoopView {
                            pending: Seq::empty(),
                            on_state_change: None::<H>,
                            on_complete: None::<H>,
                        },
                        true,
                        r@.base.ids,
                    ),
                    destination,
                    listener,
                    params,
                ),
                length,
            )
            &&& ids_taken(
                IdsView { next_id: 0, consumer: Some(halves.1) },
                seq![destination, listener] + params,
                r@.base.ids,
            )
            &&& r@.base.ids.next_id == 11 ==> hardcoded_ids(destination, listener, params)
        };
    let blank = blank_context(
        sample_rate,
        number_of_channels,
        AudioContextState::Suspended,
        outgoing_of(seq![MessageView::Startup { graph: started }], false),
        EventLoopView {
            pending: Seq::empty(),
            on_state_change: None::<H>,
            on_complete: None::<H>,
        },
        true,
        r@.base.ids,
    );
    let ports = destination_ports_spec(
        initial_channel_count(blank.max_channel_count, blank.offline),
    );
    let first = blank.registered(destination, NodeProcessor::Destination, ports);
    lemma_params_keep_messages(first, params, listener);
    assert(keeps_messages(blank, first));
    assert(keeps_messages(first, r@.base));
    assert(r@.base.outbox[0] == blank.outbox[0]);
    assert(call_ensures(graph, (halves.0,), r@.base.outbox[0].message->graph));
    let ids = seq![destination, listener] + params;
    let start = IdsView { next_id: 0, consumer: Some(halves.1) };
    let states = lemma_takes_ids(start, ids, r@.base.ids);
    assert(takes_ids(states, ids));
    lemma_registers_destination(blank, destination, listener, params);
    if r@.base.ids.next_id == 11 {
        lemma_new_context(blank, destination, listener, params);
    }
}

/// When the listener is first used, its params and the listener itself are registered (the listener
/// first), then the connections that waited for the listener are made, and then the listener is
/// connected to the hidden input of the destination. Later uses change nothing.
pub proof fn law_listener_is_added_when_first_used<P, H>(
    context: &mut ConcreteBaseAudioContext<P, H>,
)
    requires
        call_ensures(
            ConcreteBaseAudioContext::<P, H>::ensure_audio_listener_present,
            (context,),
            (),
        ),
    ensures
        ({
            let before = old(context)@;
            let after = final(context)@;
            let c = Connection {
                from: AudioNodeId(1),
                output: 0,
                to: AudioNodeId(0),
                input: usize::MAX,
            };
            &&& before.listener_queue.len() == 0 ==> after == before
            &&& before.listener_queue.len() > 0 ==> {
                &&& after.listener_queue.len() == 0
                &&& after.connections == (if before.connections.contains(c) {
                    before.connections
                } else {
                    before.connections.push(c)
                })
                &&& exists|released: Seq<MessageView<P>>|
                    {
                        &&& #[trigger] releases(
                            before.queued,
                            AudioNodeId(1),
                            released,
                            after.queued,
                        )
                        &&& puts_out(
                            before,
                            after,
                            before.listener_queue.reverse() + released + (
                            if before.connections.contains(c) {
                                Seq::empty()
                            } else {
                                seq![
                                    MessageView::<P>::ConnectNode {
                                        from: AudioNodeId(1),
                                        to: AudioNodeId(0),
                                        input: usize::MAX,
                                        output: 0,
                                    },
                                ]
                            }),
                        )
                    }
                &&& after == (BaseView {
                    listener_queue: after.listener_queue,
                    connections: after.connections,
                    queued: after.queued,
                    outbox: after.outbox,
                    suspended: after.suspended,
                    ..before
                })
            }
        }),
{
    let before = (*context)@;
    let after = final(context)@;
    let c = Connection {
        from: AudioNodeId(1),
        output: 0,
        to: AudioNodeId(0),
        input: usize::MAX,
    };
    if before.listener_queue.len() > 0 {
        let one = AudioNodeId(1);
        let released = before.queued.filter(waits_for(one));
        lemma_releases(before.queued, one);
        let last = if before.connections.contains(c) {
            Seq::empty()
        } else {
            seq![
                MessageView::<P>::ConnectNode {
                    from: AudioNodeId(1),
                    to: AudioNodeId(0),
                    input: usize::MAX,
                    output: 0,
                },
            ]
        };
        let all = before.listener_queue.reverse() + released + last;
        let empty = BaseView { listener_queue: Seq::empty(), ..before };
        lemma_send_all_twice(
            BaseView { queued: after.queued, ..empty },
            before.listener_queue.reverse(),
            released,
        );
        if before.state != AudioContextState::Closed && before.suspended is Some {
            assert(after.suspended->0 =~= before.suspended->0 + all);
        }
        assert(releases(before.queued, one, released, after.queued));
        assert(puts_out(before, after, all));
    }
}

/// The listener that a context hands out has its nine params under the numbers 2 to 10, with the
/// settings that the context keeps; and it is in the audio graph from then on.
pub proof fn law_listener_has_its_params<P, H>(
    context: &mut ConcreteBaseAudioContext<P, H>,
    present: &mut ConcreteBaseAudioContext<P, H>,
    r: AudioListener,
    i: int,
)
    requires
        call_ensures(ConcreteBaseAudioContext::<P, H>::listener, (context,), r),
        call_ensures(
            ConcreteBaseAudioContext::<P, H>::ensure_audio_listener_present,
            (present,),
            (),
        ),
        (*present)@ == (*context)@,
        (*context)@.listener_params is Some,
        0 <= i < 9,
    ensures
        r@.len() == 9,
        r@[i].registration.id.0 == 2 + i,
        r@[i].raw_parts == old(context)@.listener_params->0@[i],
        final(context)@ == final(present)@,
{
}

/// The listener is put together of its parts, each at its own place and under its own number.
pub proof fn law_listener_is_put_together(
    params: AudioListenerParams,
    l: AudioListener,
    position_x: &AudioParam,
    position_y: &AudioParam,
    position_z: &AudioParam,
    forward_x: &AudioParam,
    forward_y: &AudioParam,
    forward_z: &AudioParam,
    up_x: &AudioParam,
    up_y: &AudioParam,
    up_z: &AudioParam,
)
    requires
        call_ensures(AudioListenerParams::listener, (&params,), l),
        call_ensures(AudioListener::position_x, (&l,), position_x),
        call_ensures(AudioListener::position_y, (&l,), position_y),
        call_ensures(AudioListener::position_z, (&l,), position_z),
        call_ensures(AudioListener::forward_x, (&l,), forward_x),
        call_ensures(AudioListener::forward_y, (&l,), forward_y),
        call_ensures(AudioListener::forward_z, (&l,), forward_z),
        call_ensures(AudioListener::up_x, (&l,), up_x),
        call_ensures(AudioListener::up_y, (&l,), up_y),
        call_ensures(AudioListener::up_z, (&l,), up_z),
    ensures
        position_x.raw_parts == params.position_x && position_x.registration.id.0 == 2,
        position_y.raw_parts == params.position_y && position_y.registration.id.0 == 3,
        position_z.raw_parts == params.position_z && position_z.registration.id.0 == 4,
        forward_x.raw_parts == params.forward_x && forward_x.registration.id.0 == 5,
        forward_y.raw_parts == params.forward_y && forward_y.registration.id.0 == 6,
        forward_z.raw_parts == params.forward_z && forward_z.registration.id.0 == 7,
        up_x.raw_parts == params.up_x && up_x.registration.id.0 == 8,
        up_y.raw_parts == params.up_y && up_y.registration.id.0 == 9,
        up_z.raw_parts == params.up_z && up_z.registration.id.0 == 10,
{
    assert(l@[0] == *position_x && l@[1] == *position_y && l@[2] == *position_z);
    assert(l@[3] == *forward_x && l@[4] == *forward_y && l@[5] == *forward_z);
    assert(l@[6] == *up_x && l@[7] == *up_y && l@[8] == *up_z);
}

/// Taking a listener apart and putting it together again keeps the settings of each param.
pub proof fn law_listener_is_taken_apart(
    l: AudioListener,
    params: AudioListenerParams,
    again: AudioListener,
    i: int,
)
    requires
        call_ensures(AudioListenerParams::from_listener, (l,), params),
        call_ensures(AudioListenerParams::listener, (&params,), again),
        0 <= i < 9,
    ensures
        again@.len() == 9,
        again@[i].raw_parts == l@[i].raw_parts,
        again@[i].registration.id.0 == 2 + i,
{
    assert(params@[i] == l@[i].raw_parts);
}

/// A new listener has nine params with their default settings, no input, and an output for each
/// param.
pub proof fn law_new_listener_has_default_params<P, H>(
    context: &mut ConcreteBaseAudioContext<P, H>,
    r: AudioListenerNode,
    registration: &AudioContextRegistration,
    inputs: usize,
    outputs: usize,
    config: ChannelConfig,
    fields: AudioListener,
    i: int,
)
    requires
        call_ensures(AudioListenerNode::new::<P, H>, (context,), r),
        call_ensures(AudioListenerNode::registration, (&r,), registration),
        call_ensures(AudioListenerNode::number_of_inputs, (&r,), inputs),
        call_ensures(AudioListenerNode::number_of_outputs, (&r,), outputs),
        call_ensures(AudioListenerNode::channel_config, (&r,), config),
        call_ensures(AudioListenerNode::into_fields, (r,), fields),
        0 <= i < 9,
    ensures
        fields@.len() == 9,
        is_listener_default(fields@[i].raw_parts, i),
        registration.id == r.id(),
        inputs == 0,
        outputs == 9,
        config.channel_count == 1,
        config.channel_count_mode is Explicit,
        config.channel_interpretation is Discrete,
{
    assert(r.params()[i].raw_parts == fields@[i].raw_parts);
}

/// The renderer of the listener is never dropped.
pub proof fn law_listener_renderer_stays(renderer: &mut ListenerRenderer, keep: bool)
    requires
        call_ensures(ListenerRenderer::process, (renderer,), keep),
    ensures
        keep,
        *final(renderer) == *old(renderer),
{
}

/// The params for coordinates take any finite number, are computed per sample, and start at the value
/// that they are given.
pub proof fn law_coordinates_take_any_number(
    default_value: Float32,
    opts: AudioParamDescriptor,
    inner: AudioParamInner,
)
    requires
        call_ensures(param_opts, (default_value,), opts),
        call_ensures(AudioParamDescriptor::inner, (&opts,), inner),
    ensures
        opts.name@.len() == 0,
        inner.automation_rate is A,
        inner.default_value == default_value,
        inner.min_value.bits == 0xff7f_ffffu32,
        inner.max_value.bits == 0x7f7f_ffffu32,
{
}

/// The settings of a param are those of its description, and a param is made of its registration and
/// its settings.
pub proof fn law_params_are_made_of_their_parts(
    opts: AudioParamDescriptor,
    inner: AudioParamInner,
    registration: AudioContextRegistration,
    r: AudioParam,
    told: &AudioContextRegistration,
    id: AudioNodeId,
    raw: AudioParamInner,
)
    requires
        call_ensures(AudioParamDescriptor::inner, (&opts,), inner),
        call_ensures(AudioParam::from_raw_parts, (registration, inner), r),
        call_ensures(AudioParam::registration, (&r,), told),
        call_ensures(AudioContextRegistration::id, (told,), id),
        call_ensures(AudioParam::into_raw_parts, (r,), raw),
    ensures
        raw.automation_rate == opts.automation_rate,
        raw.default_value == opts.default_value,
        raw.min_value == opts.min_value,
        raw.max_value == opts.max_value,
        id == registration.id,
{
}

/// A context tells its settings as they are.
pub proof fn law_context_tells_its_settings<P, H>(
    context: ConcreteBaseAudioContext<P, H>,
    state: AudioContextState,
    sample_rate: Float32,
    max_channel_count: usize,
    config: ChannelConfig,
    offline: bool,
)
    requires
        call_ensures(ConcreteBaseAudioContext::<P, H>::state, (&context,), state),
        call_ensures(ConcreteBaseAudioContext::<P, H>::sample_rate, (&context,), sample_rate),
        call_ensures(
            ConcreteBaseAudioContext::<P, H>::max_channel_count,
            (&context,),
            max_channel_count,
        ),
        call_ensures(
            ConcreteBaseAudioContext::<P, H>::destination_channel_config,
            (&context,),
            config,
        ),
        call_ensures(ConcreteBaseAudioContext::<P, H>::offline, (&context,), offline),
    ensures
        state == context@.state,
        sample_rate == context@.sample_rate,
        max_channel_count == context@.max_channel_count,
        config == context@.destination_channel_config,
        offline == context@.offline,
{
}

} // verus!
