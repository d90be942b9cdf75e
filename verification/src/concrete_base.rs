//! The administration that every audio context keeps on the control thread.

use vstd::prelude::*;
use crate::events::{
    AudioContextState, EventDispatch, EventLoop, EventLoopView, EventType, EventView,
};
use crate::ids::{
    AudioNodeId, AudioNodeIdProvider, DESTINATION_NODE_ID, IdsView, LISTENER_NODE_ID,
    LISTENER_PARAM_IDS_END, LISTENER_PARAM_IDS_START, id_taken, ids_taken, is_listener_id, is_magic_id,
    law_counter_tells_fresh_ids, lemma_ids_taken_step, lemma_ids_taken_twice, node_new,
};
use crate::message::{
    ControlMessage, MessageView, Outgoing, OutgoingView, connects_to, message_views, outgoing_of,
    outgoing_views,
};
use crate::node::{
    ChannelConfig, NodePorts, NodeProcessor, destination_ports, destination_ports_spec, param_ports,
    param_ports_spec,
};
use crate::param::{
    AudioContextRegistration, AudioParam, AudioParamDescriptor, AudioParamInner, Float32,
};
use crate::seqs::{lemma_filter_no_duplicates, lemma_filter_step};
use crate::spatial::{
    AudioListener, AudioListenerNode, AudioListenerParams, listener_created, listener_param,
    listener_param_registration, lemma_params_created_settings, param_ids,
};

verus! {

/// A connection between an output port of one node and an input port of another.
#[derive(Clone, Copy, Debug, PartialEq, Eq, Structural)]
pub struct Connection {
    pub from: AudioNodeId,
    pub output: usize,
    pub to: AudioNodeId,
    pub input: usize,
}

/// Whether a connection leaves `from` and agrees with each of the given restrictions.
pub open spec fn selected(
    c: Connection,
    from: AudioNodeId,
    output: Option<usize>,
    to: Option<AudioNodeId>,
    input: Option<usize>,
) -> bool {
    &&& c.from == from
    &&& output matches Some(o) ==> c.output == o
    &&& to matches Some(t) ==> c.to == t
    &&& input matches Some(i) ==> c.input == i
}

/// [`selected`] as a predicate on connections.
pub open spec fn selection(
    from: AudioNodeId,
    output: Option<usize>,
    to: Option<AudioNodeId>,
    input: Option<usize>,
) -> spec_fn(Connection) -> bool {
    |c: Connection| selected(c, from, output, to, input)
}

/// The connections that [`selection`] leaves alone.
pub open spec fn unselected(
    from: AudioNodeId,
    output: Option<usize>,
    to: Option<AudioNodeId>,
    input: Option<usize>,
) -> spec_fn(Connection) -> bool {
    |c: Connection| !selected(c, from, output, to, input)
}

/// The connections at neither end of which the node is.
pub open spec fn not_touching(id: AudioNodeId) -> spec_fn(Connection) -> bool {
    |c: Connection| c.from != id && c.to != id
}

/// The messages that wait for the node `id`.
pub open spec fn waits_for<P>(id: AudioNodeId) -> spec_fn(MessageView<P>) -> bool {
    |m: MessageView<P>| connects_to(m, id)
}

/// The messages that do not wait for the node `id`.
pub open spec fn waits_for_other<P>(id: AudioNodeId) -> spec_fn(MessageView<P>) -> bool {
    |m: MessageView<P>| !connects_to(m, id)
}

/// The request to establish a connection.
pub open spec fn connect_message<P>(c: Connection) -> MessageView<P> {
    MessageView::ConnectNode { from: c.from, to: c.to, input: c.input, output: c.output }
}

/// The request to undo a connection.
pub open spec fn disconnect_message<P>(c: Connection) -> MessageView<P> {
    MessageView::DisconnectNode { from: c.from, to: c.to, input: c.input, output: c.output }
}

/// The requests to undo a list of connections.
pub open spec fn disconnect_messages<P>(connections: Seq<Connection>) -> Seq<MessageView<P>> {
    connections.map_values(|c: Connection| disconnect_message::<P>(c))
}

/// The request to add a node to the audio graph.
pub open spec fn register_message<P>(
    id: AudioNodeId,
    node: NodeProcessor<P>,
    ports: NodePorts,
) -> MessageView<P> {
    MessageView::RegisterNode {
        id,
        reclaim_id: seq![id.0],
        node,
        inputs: ports.inputs,
        outputs: ports.outputs,
        channel_config: ports.channel_config,
    }
}

/// The connection between an audio param and the hidden input port of the node it belongs to.
pub open spec fn param_connection(param: AudioNodeId, node: AudioNodeId) -> Connection {
    Connection { from: param, output: 0, to: node, input: usize::MAX }
}

/// The connection that has the listener rendered at each quantum.
pub open spec fn listener_connection() -> Connection {
    Connection {
        from: AudioNodeId(LISTENER_NODE_ID),
        output: 0,
        to: AudioNodeId(DESTINATION_NODE_ID),
        input: usize::MAX,
    }
}

/// The messages that are still sent after a stall has closed the context.
pub open spec fn survives_stall<P>() -> spec_fn(OutgoingView<P>) -> bool {
    |o: OutgoingView<P>| o.even_after_stall
}

/// The administration of a context, as contracts speak of it.
pub struct BaseView<P, H> {
    /// sample rate in Hertz
    pub sample_rate: Float32,
    /// max number of speaker output channels
    pub max_channel_count: usize,
    /// the provider of node ids
    pub ids: IdsView,
    /// channel settings of the destination node
    pub destination_channel_config: ChannelConfig,
    /// messages on their way to the render thread, oldest first
    pub outbox: Seq<OutgoingView<P>>,
    /// messages held back while the render thread is suspended, oldest first
    pub suspended: Option<Seq<MessageView<P>>>,
    /// connections of params to nodes that are not registered yet, oldest first
    pub queued: Seq<MessageView<P>>,
    /// registrations of the listener and its params, to be sent when the listener is first used
    pub listener_queue: Seq<MessageView<P>>,
    /// the params of the listener
    pub listener_params: Option<AudioListenerParams>,
    /// whether this is an offline context
    pub offline: bool,
    pub state: AudioContextState,
    pub events: EventLoopView<H>,
    /// current audio graph connections, in the order in which they were established
    pub connections: Seq<Connection>,
}

impl<P, H> BaseView<P, H> {
    /// Control messages go out in order. A closed context discards them, and while the render
    /// thread is suspended they are held back.
    pub open spec fn send_all(self, messages: Seq<MessageView<P>>) -> Self {
        if self.state == AudioContextState::Closed {
            self
        } else {
            match self.suspended {
                Some(held_back) => BaseView { suspended: Some(held_back + messages), ..self },
                None => BaseView { outbox: self.outbox + outgoing_of(messages, false), ..self },
            }
        }
    }

    /// From now on control messages are held back; `message` still goes out.
    pub open spec fn suspend_messages(self, message: MessageView<P>) -> Self {
        BaseView {
            suspended: Some(Seq::empty()),
            outbox: self.outbox + outgoing_of(seq![message], true),
            ..self
        }
    }

    /// The messages that were held back.
    pub open spec fn held_back(self) -> Seq<MessageView<P>> {
        match self.suspended {
            Some(held_back) => held_back,
            None => Seq::empty(),
        }
    }

    /// What was held back goes out, and then `message`.
    pub open spec fn resume_messages(self, message: MessageView<P>) -> Self {
        BaseView {
            suspended: None,
            outbox: self.outbox + outgoing_of(self.held_back().push(message), true),
            ..self
        }
    }

    /// Another state, with an event if it is a different one.
    pub open spec fn with_state(self, state: AudioContextState) -> Self {
        if self.state == state {
            self
        } else {
            BaseView { state, events: self.events.with_event(EventView::StateChange(state)), ..self }
        }
    }

    /// The connections that waited for the node `id` are released.
    pub open spec fn resolved(self, id: AudioNodeId) -> Self {
        BaseView { queued: self.queued.filter(waits_for_other(id)), ..self }.send_all(
            self.queued.filter(waits_for(id)),
        )
    }

    /// A node is added. The listener and its params stay out of the audio graph for now.
    pub open spec fn registered(self, id: AudioNodeId, node: NodeProcessor<P>, ports: NodePorts) -> Self {
        let message = register_message(id, node, ports);
        if is_listener_id(id) {
            BaseView { listener_queue: self.listener_queue.push(message), ..self }
        } else {
            self.send_all(seq![message]).resolved(id)
        }
    }

    /// The connection of a param waits for the node it belongs to.
    pub open spec fn param_queued(self, param: AudioNodeId, node: AudioNodeId) -> Self {
        BaseView {
            queued: self.queued.push(connect_message(param_connection(param, node))),
            ..self
        }
    }

    /// An audio param is added to the graph, on behalf of the node it belongs to.
    pub open spec fn param_created(self, id: AudioNodeId, inner: AudioParamInner, node: AudioNodeId) -> Self {
        self.registered(id, NodeProcessor::Param(inner), param_ports_spec()).param_queued(id, node)
    }

    /// A connection is established, unless it is there already.
    pub open spec fn connected(self, c: Connection) -> Self {
        if self.connections.contains(c) {
            self
        } else {
            BaseView { connections: self.connections.push(c), ..self }.send_all(
                seq![connect_message(c)],
            )
        }
    }

    /// The selected connections are undone.
    pub open spec fn disconnected(
        self,
        from: AudioNodeId,
        output: Option<usize>,
        to: Option<AudioNodeId>,
        input: Option<usize>,
    ) -> Self {
        BaseView {
            connections: self.connections.filter(unselected(from, output, to, input)),
            ..self
        }.send_all(
            disconnect_messages(self.connections.filter(selection(from, output, to, input))),
        )
    }

    /// The last handle of a node is gone, and with it the node's connections. The nodes that the
    /// context made for itself stay.
    pub open spec fn node_dropped(self, id: AudioNodeId) -> Self {
        if is_magic_id(id) {
            self
        } else {
            BaseView {
                connections: self.connections.filter(not_touching(id)),
                ..self.send_all(seq![MessageView::ControlHandleDropped { id }])
            }
        }
    }

    /// The listener is in the audio graph: it is added there when it is first used, and rendered
    /// at each quantum from then on.
    pub open spec fn listener_present(self) -> Self {
        if self.listener_queue.len() == 0 {
            self
        } else {
            BaseView { listener_queue: Seq::empty(), ..self }.send_all(
                self.listener_queue.reverse(),
            ).resolved(AudioNodeId(LISTENER_NODE_ID)).connected(listener_connection())
        }
    }
}

/// Whether two contexts agree in everything but their nodes and the messages about them.
pub open spec fn same_settings<P, H>(a: BaseView<P, H>, b: BaseView<P, H>) -> bool {
    &&& a.sample_rate == b.sample_rate
    &&& a.max_channel_count == b.max_channel_count
    &&& a.destination_channel_config == b.destination_channel_config
    &&& a.suspended is None <==> b.suspended is None
    &&& a.offline == b.offline
    &&& a.state == b.state
    &&& a.events == b.events
    &&& a.connections == b.connections
}

/// The struct that corresponds to the Javascript `BaseAudioContext` object.
///
/// `P` stands for what only the render thread understands, `H` for event handlers.
pub struct ConcreteBaseAudioContext<P, H> {
    sample_rate: Float32,
    max_channel_count: usize,
    audio_node_id_provider: AudioNodeIdProvider,
    destination_channel_config: ChannelConfig,
    render_channel: Vec<Outgoing<P>>,
    suspended_messages: Option<Vec<ControlMessage<P>>>,
    queued_messages: Vec<ControlMessage<P>>,
    queued_audio_listener_msgs: Vec<ControlMessage<P>>,
    listener_params: Option<AudioListenerParams>,
    offline: bool,
    state: AudioContextState,
    event_loop: EventLoop<H>,
    connections: Vec<Connection>,
}

impl<P, H> View for ConcreteBaseAudioContext<P, H> {
    type V = BaseView<P, H>;

    closed spec fn view(&self) -> BaseView<P, H> {
        BaseView {
            sample_rate: self.sample_rate,
            max_channel_count: self.max_channel_count,
            ids: self.audio_node_id_provider@,
            destination_channel_config: self.destination_channel_config,
            outbox: outgoing_views(self.render_channel@),
            suspended: match self.suspended_messages {
                Some(messages) => Some(message_views(messages@)),
                None => None,
            },
            queued: message_views(self.queued_messages@),
            listener_queue: message_views(self.queued_audio_listener_msgs@),
            listener_params: self.listener_params,
            offline: self.offline,
            state: self.state,
            events: self.event_loop@,
            connections: self.connections@,
        }
    }
}

/// Number of channels that a context starts with: online contexts start with stereo by default.
pub open spec fn initial_channel_count(max_channel_count: usize, offline: bool) -> usize {
    if offline || max_channel_count < 2 {
        max_channel_count
    } else {
        2
    }
}

/// A context before any node is registered.
pub open spec fn blank_context<P, H>(
    sample_rate: Float32,
    max_channel_count: usize,
    state: AudioContextState,
    outbox: Seq<OutgoingView<P>>,
    events: EventLoopView<H>,
    offline: bool,
    ids: IdsView,
) -> BaseView<P, H> {
    BaseView {
        sample_rate,
        max_channel_count,
        ids,
        destination_channel_config: destination_ports_spec(
            initial_channel_count(max_channel_count, offline),
        ).channel_config,
        outbox,
        suspended: None,
        queued: Seq::empty(),
        listener_queue: Seq::empty(),
        listener_params: None,
        offline,
        state,
        events,
        connections: Seq::empty(),
    }
}

/// Raw parts of the params of the listener.
pub open spec fn initial_listener_params() -> AudioListenerParams {
    AudioListenerParams {
        position_x: listener_param(0),
        position_y: listener_param(1),
        position_z: listener_param(2),
        forward_x: listener_param(3),
        forward_y: listener_param(4),
        forward_z: listener_param(5),
        up_x: listener_param(6),
        up_y: listener_param(7),
        up_z: listener_param(8),
    }
}

/// A context that has registered its destination node, and the listener with its params.
pub open spec fn initial_context<P, H>(
    blank: BaseView<P, H>,
    destination: AudioNodeId,
    listener: AudioNodeId,
    params: Seq<AudioNodeId>,
) -> BaseView<P, H> {
    BaseView {
        listener_params: Some(initial_listener_params()),
        ..listener_created(
            blank.registered(
                destination,
                NodeProcessor::Destination,
                destination_ports_spec(
                    initial_channel_count(blank.max_channel_count, blank.offline),
                ),
            ),
            params,
            listener,
        )
    }
}

/// Whether the ids of the destination, the listener and its params are the ones that every
/// context is supposed to give them.
pub open spec fn hardcoded_ids(
    destination: AudioNodeId,
    listener: AudioNodeId,
    params: Seq<AudioNodeId>,
) -> bool {
    &&& destination.0 == DESTINATION_NODE_ID
    &&& listener.0 == LISTENER_NODE_ID
    &&& forall|i: int|
        0 <= i < params.len() ==> (#[trigger] params[i]).0 == LISTENER_PARAM_IDS_START + i
}

/// Registering a node does not depend on the provider of ids.
proof fn lemma_registered_ids<P, H>(
    v: BaseView<P, H>,
    ids: IdsView,
    id: AudioNodeId,
    node: NodeProcessor<P>,
    ports: NodePorts,
)
    ensures
        (BaseView { ids, ..v }).registered(id, node, ports) == (BaseView {
            ids,
            ..v.registered(id, node, ports)
        }),
{
}

/// Sending two lists one after the other is sending their concatenation.
pub proof fn lemma_send_all_twice<P, H>(
    v: BaseView<P, H>,
    a: Seq<MessageView<P>>,
    b: Seq<MessageView<P>>,
)
    ensures
        v.send_all(a).send_all(b) == v.send_all(a + b),
{
    if v.state != AudioContextState::Closed {
        match v.suspended {
            Some(held_back) => {
                assert((held_back + a) + b =~= held_back + (a + b));
            },
            None => {
                assert((v.outbox + outgoing_of(a, false)) + outgoing_of(b, false) =~= v.outbox
                    + outgoing_of(a + b, false));
            },
        }
    }
}

/// Sending nothing changes nothing.
pub proof fn lemma_send_nothing<P, H>(v: BaseView<P, H>)
    ensures
        v.send_all(Seq::empty()) == v,
{
    match v.suspended {
        Some(held_back) => {
            assert(held_back + Seq::<MessageView<P>>::empty() =~= held_back);
        },
        None => {
            assert(v.outbox + outgoing_of(Seq::<MessageView<P>>::empty(), false) =~= v.outbox);
        },
    }
}

impl<P, H> ConcreteBaseAudioContext<P, H> {
    /// No two connections have the same termini.
    pub open spec fn wf(self) -> bool {
        self@.connections.no_duplicates()
    }

    /// Creates a context, with its destination node and its listener.
    ///
    /// `render_channel` holds the messages that are on their way to the render thread already.
    /// The nodes get the ids that are hardcoded for them exactly if the counter of fresh ids ends
    /// up right behind the params of the listener, that is if no decommissioned id was waiting.
    pub fn new(
        sample_rate: Float32,
        max_channel_count: usize,
        state: AudioContextState,
        render_channel: Vec<Outgoing<P>>,
        event_loop: EventLoop<H>,
        offline: bool,
        node_id_consumer: llq::Consumer<u64>,
    ) -> (r: Self)
        ensures
            r.wf(),
            same_settings(
                r@,
                blank_context(
                    sample_rate,
                    max_channel_count,
                    state,
                    outgoing_views(render_channel@),
                    event_loop@,
                    offline,
                    r@.ids,
                ),
            ),
            exists|destination: AudioNodeId, listener: AudioNodeId, params: Seq<AudioNodeId>|
                {
                    &&& params.len() == 9
                    &&& r@ == #[trigger] initial_context(
                        blank_context(
                            sample_rate,
                            max_channel_count,
                            state,
                            outgoing_views(render_channel@),
                            event_loop@,
                            offline,
                            r@.ids,
                        ),
                        destination,
                        listener,
                        params,
                    )
                    &&& ids_taken(
                        IdsView { next_id: 0, consumer: Some(node_id_consumer) },
                        seq![destination, listener] + params,
                        r@.ids,
                    )
                    &&& r@.ids.next_id == LISTENER_PARAM_IDS_END ==> hardcoded_ids(
                        destination,
                        listener,
                        params,
                    )
                },
    {
        // online contexts should start with stereo channels by default
        let initial_channel_count: usize = if offline || max_channel_count < 2 {
            max_channel_count
        } else {
            2
        };
        let ports = destination_ports(initial_channel_count);
        let mut base = ConcreteBaseAudioContext {
            sample_rate,
            max_channel_count,
            audio_node_id_provider: AudioNodeIdProvider::new(node_id_consumer),
            destination_channel_config: ports.channel_config,
            render_channel,
            suspended_messages: None,
            queued_messages: Vec::new(),
            queued_audio_listener_msgs: Vec::new(),
            listener_params: None,
            offline,
            state,
            event_loop,
            connections: Vec::new(),
        };
        let ghost blank = blank_context(
            sample_rate,
            max_channel_count,
            state,
            outgoing_views(render_channel@),
            event_loop@,
            offline,
            IdsView { next_id: 0, consumer: Some(node_id_consumer) },
        );
        assert(base@.queued =~= blank.queued);
        assert(base@.listener_queue =~= blank.listener_queue);
        assert(base@ == blank);

        // register the nodes that the context makes for itself
        let dest = base.register_processor(NodeProcessor::Destination, ports);
        let ghost with_dest = base@;
        let listener = AudioListenerNode::new(&mut base);
        let ghost with_listener = base@;
        let ghost destination_id = dest.id;
        let ghost listener_id = listener.id();
        let ghost params = listener.params();
        let fields = listener.into_fields();
        let listener_params = AudioListenerParams::from_listener(fields);
        base.listener_params = Some(listener_params);
        proof {
            let ids = param_ids(params);
            assert forall|i: int| 0 <= i < 9 implies (#[trigger] listener_params@[i])
                == listener_param(i) by {
                assert(fields@[i].raw_parts == listener_param(i));
            }
            assert(listener_params == initial_listener_params()) by {
                assert(listener_params@[0] == listener_param(0));
                assert(listener_params@[1] == listener_param(1));
                assert(listener_params@[2] == listener_param(2));
                assert(listener_params@[3] == listener_param(3));
                assert(listener_params@[4] == listener_param(4));
                assert(listener_params@[5] == listener_param(5));
                assert(listener_params@[6] == listener_param(6));
                assert(listener_params@[7] == listener_param(7));
                assert(listener_params@[8] == listener_param(8));
            }
            let blank_after = BaseView { ids: with_listener.ids, ..blank };
            lemma_registered_ids(
                blank,
                with_dest.ids,
                destination_id,
                NodeProcessor::Destination,
                ports,
            );
            lemma_registered_ids(
                blank,
                with_listener.ids,
                destination_id,
                NodeProcessor::Destination,
                ports,
            );
            assert(base@ == initial_context(blank_after, destination_id, listener_id, ids));
            lemma_params_created_settings(
                BaseView { ids: with_listener.ids, ..with_dest },
                ids,
                listener_id,
            );
            let own = IdsView { next_id: 0, consumer: Some(node_id_consumer) };
            let all = seq![destination_id, listener_id] + ids;
            assert(ids_taken(own, Seq::empty(), own));
            lemma_ids_taken_step(own, Seq::empty(), own, destination_id, with_dest.ids);
            lemma_ids_taken_twice(
                own,
                Seq::empty().push(destination_id),
                with_dest.ids,
                seq![listener_id] + ids,
                with_listener.ids,
            );
            assert(Seq::empty().push(destination_id) + (seq![listener_id] + ids) =~= all);
            law_counter_tells_fresh_ids(own, all, with_listener.ids);
            if with_listener.ids.next_id == LISTENER_PARAM_IDS_END {
                assert(all[0] == destination_id && all[1] == listener_id);
                assert forall|i: int| 0 <= i < ids.len() implies (#[trigger] ids[i]).0
                    == LISTENER_PARAM_IDS_START + i by {
                    assert(all[i + 2] == ids[i]);
                }
            }
        }
        base
    }

    /// Sends a control message to the render thread.
    pub fn send_control_msg(&mut self, msg: ControlMessage<P>)
        ensures
            final(self)@ == old(self)@.send_all(seq![msg@]),
    {
        if self.state != AudioContextState::Closed {
            // if the context is suspended, hold the message back
            match self.suspended_messages.take() {
                Some(mut queued) => {
                    let ghost before = queued@;
                    queued.push(msg);
                    assert(message_views(queued@) =~= message_views(before) + seq![msg@]);
                    self.suspended_messages = Some(queued);
                },
                None => {
                    self.render_channel.push(Outgoing { message: msg, even_after_stall: false });
                    assert(self@.outbox =~= old(self)@.outbox + outgoing_of(seq![msg@], false));
                },
            }
        }
    }

    /// Holds control messages back from now on, after `msg`.
    pub fn suspend_control_msgs(&mut self, msg: ControlMessage<P>)
        ensures
            final(self)@ == old(self)@.suspend_messages(msg@),
    {
        let held_back: Vec<ControlMessage<P>> = Vec::new();
        assert(message_views(held_back@) =~= Seq::empty());
        self.suspended_messages = Some(held_back);
        self.render_channel.push(Outgoing { message: msg, even_after_stall: true });
        assert(self@.outbox =~= old(self)@.outbox + outgoing_of(seq![msg@], true));
    }

    /// Releases the control messages that were held back, in order, and then `msg`.
    pub fn resume_control_msgs(&mut self, msg: ControlMessage<P>)
        ensures
            final(self)@ == old(self)@.resume_messages(msg@),
    {
        let mut messages: Vec<ControlMessage<P>> = match self.suspended_messages.take() {
            Some(messages) => messages,
            None => Vec::new(),
        };
        assert(message_views(messages@) =~= old(self)@.held_back());
        messages.push(msg);
        let ghost all = message_views(messages@);
        assert(all =~= old(self)@.held_back().push(msg@));
        let ghost start = self.render_channel@;
        let ghost total = messages@;
        while messages.len() > 0
            invariant
                messages@.len() <= total.len(),
                messages@ == total.skip(total.len() - messages@.len()),
                outgoing_views(self.render_channel@) == outgoing_views(start) + outgoing_of(
                    message_views(total.take(total.len() - messages@.len())),
                    true,
                ),
                (Self { render_channel: old(self).render_channel, ..*self }) == (Self {
                    suspended_messages: None,
                    ..*old(self)
                }),
            decreases messages.len(),
        {
            let ghost k = total.len() - messages@.len();
            let ghost sent = self.render_channel@;
            let message = messages.remove(0);
            assert(message == total[k]);
            self.render_channel.push(Outgoing { message, even_after_stall: true });
            assert(messages@ =~= total.skip(k + 1));
            assert(total.take(k + 1) =~= total.take(k).push(message));
            assert(message_views(total.take(k + 1)) =~= message_views(total.take(k)).push(message@));
            assert(outgoing_views(self.render_channel@) =~= outgoing_views(sent).push(
                OutgoingView { message: message@, even_after_stall: true },
            ));
            assert(outgoing_views(self.render_channel@) =~= outgoing_views(start) + outgoing_of(
                message_views(total.take(k + 1)),
                true,
            ));
        }
        assert(total.take(total.len() as int) =~= total);
    }

    /// Queues an event for the control thread.
    pub fn send_event(&mut self, msg: EventDispatch)
        ensures
            final(self)@ == (BaseView { events: old(self)@.events.with_event(msg@), ..old(self)@ }),
    {
        self.event_loop.send(msg);
    }

    /// Takes the next message that should be sent to the render thread. What a context has accepted
    /// goes out even if the context has been closed since.
    pub fn next_outgoing(&mut self) -> (r: Option<Outgoing<P>>)
        ensures
            match r {
                Some(outgoing) => old(self)@.outbox.len() > 0 && outgoing@ == old(self)@.outbox[0]
                    && final(self)@ == (BaseView {
                    outbox: old(self)@.outbox.skip(1),
                    ..old(self)@
                }),
                None => old(self)@.outbox.len() == 0 && final(self)@ == old(self)@,
            },
    {
        if self.render_channel.len() == 0 {
            return None;
        }
        let outgoing = self.render_channel.remove(0);
        assert(self@.outbox =~= old(self)@.outbox.skip(1));
        Some(outgoing)
    }

    /// Discards what is behind a message on which the render thread has stalled, but for the
    /// messages that are sent even then.
    pub fn discard_after_stall(&mut self)
        ensures
            final(self)@ == (BaseView {
                outbox: old(self)@.outbox.filter(survives_stall()),
                ..old(self)@
            }),
    {
        let ghost c0 = self@.outbox;
        let ghost yes = survives_stall::<P>();
        let ghost mut k: int = 0;
        let mut i: usize = 0;
        proof {
            reveal(Seq::filter);
            assert(c0.take(0) =~= Seq::empty());
            assert(c0.take(0).filter(yes) + c0.skip(0) =~= c0);
        }
        while i < self.render_channel.len()
            invariant
                0 <= k <= c0.len(),
                c0 == old(self)@.outbox,
                yes == survives_stall::<P>(),
                i == c0.take(k).filter(yes).len(),
                self.render_channel@.len() == self@.outbox.len(),
                self@.outbox == c0.take(k).filter(yes) + c0.skip(k),
                self@ == (BaseView { outbox: self@.outbox, ..old(self)@ }),
            decreases c0.len() - k,
        {
            let ghost list = self.render_channel@;
            proof {
                lemma_filter_step(c0, yes, k);
                assert(self@.outbox[i as int] == c0[k]);
            }
            if self.render_channel[i].even_after_stall {
                i += 1;
            } else {
                self.render_channel.remove(i);
                assert(outgoing_views(self.render_channel@) =~= outgoing_views(list).remove(
                    i as int,
                ));
            }
            assert(self@.outbox =~= c0.take(k + 1).filter(yes) + c0.skip(k + 1));
            proof {
                k = k + 1;
            }
        }
        proof {
            assert(c0.take(k) =~= c0);
            assert(c0.take(k).filter(yes) + c0.skip(k) =~= c0.filter(yes));
        }
    }

    /// Puts a message back that could not be sent yet, in front of all others.
    pub fn put_back(&mut self, outgoing: Outgoing<P>)
        ensures
            final(self)@ == (BaseView { outbox: seq![outgoing@] + old(self)@.outbox, ..old(self)@ }),
    {
        self.render_channel.insert(0, outgoing);
        assert(self@.outbox =~= seq![outgoing@] + old(self)@.outbox);
    }

    /// Updates the state of the context, with an event if it changes.
    pub fn set_state(&mut self, state: AudioContextState)
        ensures
            final(self)@ == old(self)@.with_state(state),
    {
        let current_state = self.state;
        if current_state != state {
            self.state = state;
            self.send_event(EventDispatch::StateChange(state));
        }
    }

    /// Takes over a state that the render thread has entered and announced on its own.
    pub fn adopt_state(&mut self, state: AudioContextState)
        ensures
            final(self)@ == (BaseView { state, ..old(self)@ }),
    {
        self.state = state;
    }

    /// Releases the queued control messages that wait for the node with the given `id`.
    pub fn resolve_queued_control_msgs(&mut self, id: AudioNodeId)
        ensures
            final(self)@ == old(self)@.resolved(id),
    {
        let ghost q0 = self@.queued;
        let ghost yes = waits_for::<P>(id);
        let ghost no = waits_for_other::<P>(id);
        let ghost mut k: int = 0;
        let mut i: usize = 0;
        proof {
            reveal(Seq::filter);
            assert(q0.take(0) =~= Seq::empty());
            lemma_send_nothing(self@);
            assert(q0.take(0).filter(no) + q0.skip(0) =~= q0);
        }
        while i < self.queued_messages.len()
            invariant
                0 <= k <= q0.len(),
                q0 == old(self)@.queued,
                yes == waits_for::<P>(id),
                no == waits_for_other::<P>(id),
                i == q0.take(k).filter(no).len(),
                self@.queued == q0.take(k).filter(no) + q0.skip(k),
                self@ == (BaseView { queued: self@.queued, ..old(self)@ }).send_all(
                    q0.take(k).filter(yes),
                ),
            decreases q0.len() - k,
        {
            let ghost before = self@;
            proof {
                lemma_filter_step(q0, yes, k);
                lemma_filter_step(q0, no, k);
                assert(before.queued[i as int] == q0[k]);
            }
            if self.queued_messages[i].connects_to(id) {
                let ghost list = self.queued_messages@;
                let m = self.queued_messages.remove(i);
                proof {
                    assert(message_views(self.queued_messages@) =~= message_views(list).remove(
                        i as int,
                    ));
                    assert(self@.queued =~= q0.take(k + 1).filter(no) + q0.skip(k + 1));
                    lemma_send_all_twice(
                        BaseView { queued: self@.queued, ..old(self)@ },
                        q0.take(k).filter(yes),
                        seq![m@],
                    );
                    assert(q0.take(k).filter(yes) + seq![m@] =~= q0.take(k + 1).filter(yes));
                }
                self.send_control_msg(m);
            } else {
                i += 1;
                proof {
                    assert(self@.queued =~= q0.take(k + 1).filter(no) + q0.skip(k + 1));
                }
            }
            proof {
                k = k + 1;
            }
        }
        proof {
            assert(k == q0.len());
            assert(q0.take(k) =~= q0);
            assert(q0.take(k).filter(no) + q0.skip(k) =~= q0.filter(no));
        }
    }

    /// Reserves an id for a node that is about to be created.
    pub fn new_registration(&mut self) -> (r: AudioContextRegistration)
        ensures
            id_taken(old(self)@.ids, r.id, final(self)@.ids),
            final(self)@ == (BaseView { ids: final(self)@.ids, ..old(self)@ }),
    {
        let id = self.audio_node_id_provider.get();
        AudioContextRegistration { id }
    }

    /// Passes the renderer of a node, whose id was reserved before, to the audio graph.
    ///
    /// The listener and its params are not added to the graph just yet.
    pub fn register_node(
        &mut self,
        registration: &AudioContextRegistration,
        node: NodeProcessor<P>,
        ports: NodePorts,
    )
        ensures
            final(self)@ == old(self)@.registered(registration.id, node, ports),
    {
        let id = registration.id;
        let message = ControlMessage::RegisterNode {
            id,
            reclaim_id: node_new(id.0),
            node,
            inputs: ports.inputs,
            outputs: ports.outputs,
            channel_config: ports.channel_config,
        };
        assert(message@ == register_message(id, node, ports));
        if id.is_listener() {
            self.queued_audio_listener_msgs.push(message);
            assert(self@.listener_queue =~= old(self)@.listener_queue.push(message@));
        } else {
            self.send_control_msg(message);
            self.resolve_queued_control_msgs(id);
        }
    }

    /// Constructs a new node and its renderer. `f` creates both, and may create audio params for the
    /// node on the way.
    pub fn register<
        T,
        F: FnOnce(&mut Self, AudioContextRegistration) -> (T, NodeProcessor<P>, NodePorts),
    >(&mut self, f: F) -> (r: T)
        requires
            forall|context: &mut Self, registration: AudioContextRegistration|
                context@ == (BaseView { ids: context@.ids, ..old(self)@ }) && id_taken(
                    old(self)@.ids,
                    registration.id,
                    context@.ids,
                ) ==> #[trigger] call_requires(f, (context, registration)),
        ensures
            exists|
                context: &mut Self,
                registration: AudioContextRegistration,
                made: (T, NodeProcessor<P>, NodePorts),
            |
                {
                    &&& #[trigger] call_ensures(f, (context, registration), made)
                    &&& (*context)@ == (BaseView { ids: (*context)@.ids, ..old(self)@ })
                    &&& id_taken(old(self)@.ids, registration.id, (*context)@.ids)
                    &&& final(self)@ == (*final(context))@.registered(
                        registration.id,
                        made.1,
                        made.2,
                    )
                    &&& r == made.0
                },
    {
        // create a unique id for this node
        let registration = self.new_registration();
        // create the node and its renderer
        let (node, render, ports) = f(self, registration);
        // pass the renderer to the audio graph
        self.register_node(&registration, render, ports);
        node
    }

    /// Registers a new node without audio params, and passes its renderer to the audio graph.
    pub fn register_processor(&mut self, node: NodeProcessor<P>, ports: NodePorts) -> (r:
        AudioContextRegistration)
        ensures
            id_taken(old(self)@.ids, r.id, final(self)@.ids),
            final(self)@ == (BaseView { ids: final(self)@.ids, ..old(self)@ }).registered(
                r.id,
                node,
                ports,
            ),
    {
        let registration = self.new_registration();
        self.register_node(&registration, node, ports);
        registration
    }

    /// Schedules the connection of an audio param to the node it belongs to.
    ///
    /// It is not performed immediately as that node is not registered at this point.
    pub fn queue_audio_param_connect(&mut self, param: &AudioParam, audio_node: AudioNodeId)
        ensures
            final(self)@ == old(self)@.param_queued(param.registration.id, audio_node),
    {
        let message = ControlMessage::ConnectNode {
            from: param.registration.id,
            to: audio_node,
            output: 0,
            input: usize::MAX,  // audio params connect to the 'hidden' input port
        };
        self.queued_messages.push(message);
        assert(self@.queued =~= old(self)@.queued.push(message@));
    }

    /// Creates an audio param for the node `dest`, which is not registered yet.
    pub fn create_audio_param(
        &mut self,
        opts: AudioParamDescriptor,
        dest: &AudioContextRegistration,
    ) -> (r: AudioParam)
        ensures
            id_taken(old(self)@.ids, r.registration.id, final(self)@.ids),
            r.raw_parts == opts.inner_spec(),
            final(self)@ == (BaseView { ids: final(self)@.ids, ..old(self)@ }).param_created(
                r.registration.id,
                r.raw_parts,
                dest.id,
            ),
    {
        let inner = opts.inner();
        let registration = self.register_processor(NodeProcessor::Param(inner), param_ports());
        let param = AudioParam::from_raw_parts(registration, inner);
        self.queue_audio_param_connect(&param, dest.id);
        param
    }

    /// Tells whether a connection is established.
    pub fn has_connection(&self, connection: &Connection) -> (r: bool)
        ensures
            r == self@.connections.contains(*connection),
    {
        let mut i: usize = 0;
        while i < self.connections.len()
            invariant
                i <= self.connections.len(),
                forall|j: int| 0 <= j < i ==> self.connections@[j] != *connection,
            decreases self.connections.len() - i,
        {
            if self.connections[i] == *connection {
                assert(self@.connections[i as int] == *connection);
                return true;
            }
            i += 1;
        }
        false
    }

    /// Number of connections.
    pub fn connection_count(&self) -> (r: usize)
        ensures
            r == self@.connections.len(),
    {
        self.connections.len()
    }

    /// Connects the output of the `from` audio node to the input of the `to` audio node.
    ///
    /// There can only be one connection between a given output of one specific node and a given
    /// input of another specific node: multiple connections with the same termini are ignored.
    pub fn connect(&mut self, from: AudioNodeId, to: AudioNodeId, output: usize, input: usize)
        ensures
            final(self)@ == old(self)@.connected(Connection { from, output, to, input }),
            old(self).wf() ==> final(self).wf(),
    {
        let connection = Connection { from, output, to, input };
        if self.has_connection(&connection) {
            return ;
        }
        self.connections.push(connection);
        let message = ControlMessage::ConnectNode { from, to, output, input };
        self.send_control_msg(message);
    }

    /// Tells whether [`Self::disconnect`] would find a connection to undo.
    pub fn is_connected(
        &self,
        from: AudioNodeId,
        output: Option<usize>,
        to: Option<AudioNodeId>,
        input: Option<usize>,
    ) -> (r: bool)
        ensures
            r == exists|i: int|
                0 <= i < self@.connections.len() && selected(
                    #[trigger] self@.connections[i],
                    from,
                    output,
                    to,
                    input,
                ),
    {
        let mut i: usize = 0;
        while i < self.connections.len()
            invariant
                i <= self.connections.len(),
                forall|j: int|
                    0 <= j < i ==> !selected(#[trigger] self@.connections[j], from, output, to, input),
            decreases self.connections.len() - i,
        {
            if self.connections[i].is_selected(from, output, to, input) {
                assert(selected(self@.connections[i as int], from, output, to, input));
                return true;
            }
            i += 1;
        }
        false
    }

    /// Disconnects outputs of the audio node, possibly filtered by output node, input, output.
    ///
    /// With an output node, there must be a connection to undo (see [`Self::is_connected`]):
    /// anything else is an `InvalidAccessError`.
    pub fn disconnect(
        &mut self,
        from: AudioNodeId,
        output: Option<usize>,
        to: Option<AudioNodeId>,
        input: Option<usize>,
    )
        requires
            to is Some ==> exists|i: int|
                0 <= i < old(self)@.connections.len() && selected(
                    #[trigger] old(self)@.connections[i],
                    from,
                    output,
                    to,
                    input,
                ),
        ensures
            final(self)@ == old(self)@.disconnected(from, output, to, input),
            old(self).wf() ==> final(self).wf(),
    {
        let ghost c0 = self@.connections;
        let ghost yes = selection(from, output, to, input);
        let ghost no = unselected(from, output, to, input);
        let ghost mut k: int = 0;
        let mut i: usize = 0;
        proof {
            reveal(Seq::filter);
            assert(c0.take(0) =~= Seq::empty());
            lemma_send_nothing(self@);
            assert(disconnect_messages::<P>(c0.take(0).filter(yes)) =~= Seq::empty());
            assert(c0.take(0).filter(no) + c0.skip(0) =~= c0);
        }
        while i < self.connections.len()
            invariant
                0 <= k <= c0.len(),
                c0 == old(self)@.connections,
                yes == selection(from, output, to, input),
                no == unselected(from, output, to, input),
                i == c0.take(k).filter(no).len(),
                self@.connections == c0.take(k).filter(no) + c0.skip(k),
                self@ == (BaseView { connections: self@.connections, ..old(self)@ }).send_all(
                    disconnect_messages(c0.take(k).filter(yes)),
                ),
            decreases c0.len() - k,
        {
            proof {
                lemma_filter_step(c0, yes, k);
                lemma_filter_step(c0, no, k);
                assert(self@.connections[i as int] == c0[k]);
            }
            if self.connections[i].is_selected(from, output, to, input) {
                let c = self.connections.remove(i);
                let message = ControlMessage::DisconnectNode {
                    from,
                    to: c.to,
                    input: c.input,
                    output: c.output,
                };
                proof {
                    assert(self@.connections =~= c0.take(k + 1).filter(no) + c0.skip(k + 1));
                    lemma_send_all_twice(
                        BaseView { connections: self@.connections, ..old(self)@ },
                        disconnect_messages(c0.take(k).filter(yes)),
                        seq![message@],
                    );
                    assert(disconnect_messages(c0.take(k).filter(yes)) + seq![message@]
                        =~= disconnect_messages(c0.take(k + 1).filter(yes)));
                }
                self.send_control_msg(message);
            } else {
                i += 1;
                proof {
                    assert(self@.connections =~= c0.take(k + 1).filter(no) + c0.skip(k + 1));
                }
            }
            proof {
                k = k + 1;
            }
        }
        proof {
            assert(k == c0.len());
            assert(c0.take(k) =~= c0);
            assert(c0.take(k).filter(no) + c0.skip(k) =~= c0.filter(no));
            if old(self).wf() {
                lemma_filter_no_duplicates(c0, no);
            }
        }
    }

    /// Informs the render thread that the control thread holds no handle of a node any more, and
    /// clears the connection administration for it, as its id may be used again.
    pub fn mark_node_dropped(&mut self, id: AudioNodeId)
        ensures
            final(self)@ == old(self)@.node_dropped(id),
            old(self).wf() ==> final(self).wf(),
    {
        // ignore magic nodes
        if id.is_magic() {
            return ;
        }
        let message = ControlMessage::ControlHandleDropped { id };
        self.send_control_msg(message);

        let ghost sent = *self;
        let ghost c0 = self@.connections;
        let ghost no = not_touching(id);
        let ghost mut k: int = 0;
        let mut i: usize = 0;
        proof {
            reveal(Seq::filter);
            assert(c0.take(0) =~= Seq::empty());
            assert(c0.take(0).filter(no) + c0.skip(0) =~= c0);
        }
        while i < self.connections.len()
            invariant
                0 <= k <= c0.len(),
                c0 == sent@.connections,
                no == not_touching(id),
                i == c0.take(k).filter(no).len(),
                self@.connections == c0.take(k).filter(no) + c0.skip(k),
                self@ == (BaseView { connections: self@.connections, ..sent@ }),
            decreases c0.len() - k,
        {
            proof {
                lemma_filter_step(c0, no, k);
                assert(self@.connections[i as int] == c0[k]);
            }
            if self.connections[i].from == id || self.connections[i].to == id {
                self.connections.remove(i);
            } else {
                i += 1;
            }
            assert(self@.connections =~= c0.take(k + 1).filter(no) + c0.skip(k + 1));
            proof {
                k = k + 1;
            }
        }
        proof {
            assert(k == c0.len());
            assert(c0.take(k) =~= c0);
            assert(c0.take(k).filter(no) + c0.skip(k) =~= c0.filter(no));
            if old(self).wf() {
                lemma_filter_no_duplicates(c0, no);
            }
        }
    }

    /// Informs the render thread that this node can act as a cycle breaker.
    pub fn mark_cycle_breaker(&mut self, reg: &AudioContextRegistration)
        ensures
            final(self)@ == old(self)@.send_all(seq![MessageView::MarkCycleBreaker { id: reg.id }]),
    {
        let id = reg.id();
        let message = ControlMessage::MarkCycleBreaker { id };
        self.send_control_msg(message);
    }

    /// Connects the listener to a panner node.
    pub fn connect_listener_to_panner(&mut self, panner: AudioNodeId)
        ensures
            final(self)@ == old(self)@.connected(
                param_connection(AudioNodeId(LISTENER_NODE_ID), panner),
            ),
            old(self).wf() ==> final(self).wf(),
    {
        self.connect(AudioNodeId(LISTENER_NODE_ID), panner, 0, usize::MAX);
    }

    /// Adds the listener to the audio graph (if not already).
    pub fn ensure_audio_listener_present(&mut self)
        ensures
            final(self)@ == old(self)@.listener_present(),
            old(self).wf() ==> final(self).wf(),
    {
        let ghost all = self@.listener_queue;
        let ghost start = *self;
        let mut released = false;
        proof {
            lemma_send_nothing(self@);
            assert(all.reverse().take(0) =~= Seq::empty());
        }
        while self.queued_audio_listener_msgs.len() > 0
            invariant
                self@.listener_queue.len() <= all.len(),
                self.queued_audio_listener_msgs@.len() == self@.listener_queue.len(),
                all == start@.listener_queue,
                released == (self@.listener_queue.len() < all.len()),
                self@.listener_queue == all.take(self@.listener_queue.len() as int),
                self@ == (BaseView { listener_queue: self@.listener_queue, ..start@ }).send_all(
                    all.reverse().take(all.len() - self@.listener_queue.len()),
                ),
            decreases self.queued_audio_listener_msgs.len(),
        {
            let ghost left = self@.listener_queue.len() as int;
            let ghost queue = self.queued_audio_listener_msgs@;
            let ghost sent = all.reverse().take(all.len() - left);
            match self.queued_audio_listener_msgs.pop() {
                Some(message) => {
                    proof {
                        assert(message_views(self.queued_audio_listener_msgs@) =~= message_views(
                            queue,
                        ).drop_last());
                        assert(message@ == message_views(queue).last());
                        assert(message@ == all[left - 1]);
                        assert(self@.listener_queue =~= all.take(left - 1));
                        lemma_send_all_twice(
                            BaseView { listener_queue: self@.listener_queue, ..start@ },
                            sent,
                            seq![message@],
                        );
                        assert(sent + seq![message@] =~= all.reverse().take(all.len() - left + 1));
                    }
                    // add the renderer to the graph
                    self.send_control_msg(message);
                    released = true;
                },
                None => {},
            }
        }
        proof {
            assert(all.reverse().take(all.len() as int) =~= all.reverse());
            assert(all.take(0) =~= Seq::empty());
            if all.len() == 0 {
                assert(self@.listener_queue =~= all);
            }
        }
        if released {
            // connect the params to the listener
            self.resolve_queued_control_msgs(AudioNodeId(LISTENER_NODE_ID));

            // connect the listener to the destination node to force it to render at each quantum,
            // through the hidden input port so that it has no side effects
            self.connect(
                AudioNodeId(LISTENER_NODE_ID),
                AudioNodeId(DESTINATION_NODE_ID),
                0,
                usize::MAX,
            );
        }
    }

    /// Returns the listener, which is used for 3D spatialization.
    pub fn listener(&mut self) -> (r: AudioListener)
        requires
            old(self)@.listener_params is Some,
        ensures
            final(self)@ == old(self)@.listener_present(),
            old(self).wf() ==> final(self).wf(),
            r@.len() == 9,
            forall|i: int|
                0 <= i < 9 ==> (#[trigger] r@[i]) == (AudioParam {
                    registration: listener_param_registration(i),
                    raw_parts: old(self)@.listener_params->0@[i],
                }),
    {
        // add the listener to the graph if it is not there already
        self.ensure_audio_listener_present();
        let params = self.listener_params.unwrap();
        params.listener()
    }

    /// State of the context.
    pub fn state(&self) -> (r: AudioContextState)
        ensures
            r == self@.state,
    {
        self.state
    }

    /// The sample rate (in sample-frames per second) at which the context handles audio.
    pub fn sample_rate(&self) -> (r: Float32)
        ensures
            r == self@.sample_rate,
    {
        self.sample_rate
    }

    /// Maximum available channels for the audio destination.
    pub fn max_channel_count(&self) -> (r: usize)
        ensures
            r == self@.max_channel_count,
    {
        self.max_channel_count
    }

    /// Channel settings of the destination node.
    pub fn destination_channel_config(&self) -> (r: ChannelConfig)
        ensures
            r == self@.destination_channel_config,
    {
        self.destination_channel_config
    }

    /// Returns true if this is an offline context.
    pub fn offline(&self) -> (r: bool)
        ensures
            r == self@.offline,
    {
        self.offline
    }

    /// Makes a handler the active one for a kind of event.
    pub fn set_event_handler(&mut self, event: EventType, callback: H)
        ensures
            final(self)@ == (BaseView {
                events: old(self)@.events.with_handler(event, Some(callback)),
                ..old(self)@
            }),
    {
        self.event_loop.set_handler(event, callback);
    }

    /// Drops the handler for a kind of event.
    pub fn clear_event_handler(&mut self, event: EventType)
        ensures
            final(self)@ == (BaseView {
                events: old(self)@.events.with_handler(event, None),
                ..old(self)@
            }),
    {
        self.event_loop.clear_handler(event);
    }

    /// Takes the oldest event that has not been handled.
    pub fn next_event(&mut self) -> (r: Option<EventDispatch>)
        ensures
            match r {
                Some(event) => old(self)@.events.pending.len() > 0 && event@
                    == old(self)@.events.pending[0] && final(self)@ == (BaseView {
                    events: EventLoopView {
                        pending: old(self)@.events.pending.skip(1),
                        ..old(self)@.events
                    },
                    ..old(self)@
                }),
                None => old(self)@.events.pending.len() == 0 && final(self)@ == old(self)@,
            },
    {
        self.event_loop.next_event()
    }

    /// Takes the handler for a kind of event out, to run it once.
    pub fn take_event_handler(&mut self, event: EventType) -> (r: Option<H>)
        ensures
            r == old(self)@.events.handler(event),
            final(self)@ == (BaseView {
                events: old(self)@.events.with_handler(event, None),
                ..old(self)@
            }),
    {
        self.event_loop.take_handler(event)
    }
}

impl Connection {
    /// Tells whether the connection leaves `from` and agrees with each of the given restrictions.
    pub fn is_selected(
        &self,
        from: AudioNodeId,
        output: Option<usize>,
        to: Option<AudioNodeId>,
        input: Option<usize>,
    ) -> (r: bool)
        ensures
            r == selected(*self, from, output, to, input),
    {
        self.from == from && self.output == output.unwrap_or(self.output) && self.to == to.unwrap_or(
            self.to,
        ) && self.input == input.unwrap_or(self.input)
    }
}

} // verus!
