use web_audio_control::concrete_base::{ConcreteBaseAudioContext, Connection};
use web_audio_control::events::{AudioContextState, EventDispatch, EventLoop, EventType};
use web_audio_control::ids::{AudioNodeId, DESTINATION_NODE_ID, LISTENER_NODE_ID};
use web_audio_control::message::ControlMessage;
use web_audio_control::node::{
    ChannelConfig, ChannelCountMode, ChannelInterpretation, NodePorts, NodeProcessor,
};
use web_audio_control::offline::OfflineAudioContext;
use web_audio_control::param::{
    AudioContextRegistration, AudioParamDescriptor, AutomationRate, Float32,
};

/// What only a render thread would understand.
type Payload = &'static str;
type Base = ConcreteBaseAudioContext<Payload, u32>;
type Offline = OfflineAudioContext<Payload, u32, (), ()>;

fn float(x: f32) -> Float32 {
    Float32 { bits: x.to_bits() }
}

fn offline_context() -> Offline {
    OfflineAudioContext::new(1, 128, float(48000.), |_producer| "graph")
}

fn online_context(max_channel_count: usize) -> (Base, llq::Producer<u64>) {
    let (producer, consumer) = llq::Queue::new().split();
    let base = ConcreteBaseAudioContext::new(
        float(44100.),
        max_channel_count,
        AudioContextState::Running,
        Vec::new(),
        EventLoop::new(),
        false,
        consumer,
    );
    (base, producer)
}

fn ports() -> NodePorts {
    NodePorts {
        inputs: 1,
        outputs: 1,
        channel_config: ChannelConfig {
            channel_count: 2,
            channel_count_mode: ChannelCountMode::Max,
            channel_interpretation: ChannelInterpretation::Speakers,
        },
    }
}

fn create_node(base: &mut Base, name: Payload) -> AudioContextRegistration {
    base.register_processor(NodeProcessor::Custom(name), ports())
}

/// The messages that leave the context, in words.
fn sent(base: &mut Base) -> Vec<String> {
    let mut words = Vec::new();
    while let Some(outgoing) = base.next_outgoing() {
        words.push(match outgoing.message {
            ControlMessage::Startup { graph } => format!("startup {graph}"),
            ControlMessage::RegisterNode {
                id,
                reclaim_id,
                node,
                inputs,
                outputs,
                channel_config,
            } => {
                // the cell that carries the id back holds that id
                assert_eq!(*reclaim_id, id.0);
                let kind = match node {
                    NodeProcessor::Destination => "destination".to_string(),
                    NodeProcessor::Listener => "listener".to_string(),
                    NodeProcessor::Param(inner) => {
                        format!("param({})", f32::from_bits(inner.default_value.bits))
                    }
                    NodeProcessor::Custom(name) => name.to_string(),
                };
                format!(
                    "register {} {kind} {inputs} {outputs} {}",
                    id.0, channel_config.channel_count
                )
            }
            ControlMessage::ControlHandleDropped { id } => format!("dropped {}", id.0),
            ControlMessage::MarkCycleBreaker { id } => format!("cycle breaker {}", id.0),
            ControlMessage::ConnectNode {
                from,
                to,
                input,
                output,
            } => {
                if input == usize::MAX {
                    format!("connect {}:{output} to {} hidden", from.0, to.0)
                } else {
                    format!("connect {}:{output} to {}:{input}", from.0, to.0)
                }
            }
            ControlMessage::DisconnectNode {
                from,
                to,
                input,
                output,
            } => format!("disconnect {}:{output} from {}:{input}", from.0, to.0),
            ControlMessage::Render { payload } => payload.to_string(),
        });
    }
    words
}

#[test]
fn test_connect_disconnect() {
    let mut context = offline_context();
    let base = context.base_mut();
    let node1 = create_node(base, "constant source");
    let node2 = create_node(base, "gain");

    // connection list starts empty
    assert_eq!(base.connection_count(), 0);

    base.disconnect(node1.id(), None, None, None); // never fails for plain disconnect calls

    base.connect(node1.id(), node2.id(), 0, 0);

    // connection should be registered
    assert_eq!(base.connection_count(), 1);

    base.disconnect(node1.id(), None, None, None);
    assert_eq!(base.connection_count(), 0);

    base.connect(node1.id(), node2.id(), 0, 0);
    assert_eq!(base.connection_count(), 1);

    assert!(base.is_connected(node1.id(), None, Some(node2.id()), None));
    base.disconnect(node1.id(), None, Some(node2.id()), None);
    assert_eq!(base.connection_count(), 0);

    // an unconnected destination cannot be disconnected
    assert!(!base.is_connected(node1.id(), None, Some(node2.id()), None));
}

#[test]
fn test_mark_node_dropped() {
    let mut context = offline_context();
    let base = context.base_mut();

    let node1 = create_node(base, "constant source");
    let node2 = create_node(base, "gain");

    base.connect(node1.id(), node2.id(), 0, 0);
    base.mark_node_dropped(node1.id());

    // dropping should clear connections administration
    assert_eq!(base.connection_count(), 0);
}

#[test]
fn new_contexts_send_their_destination() {
    let mut context = offline_context();
    assert!(context.base().offline());
    assert_eq!(
        sent(context.base_mut()),
        vec!["startup graph", "register 0 destination 1 1 1"]
    );

    let (mut base, _producer) = online_context(6);
    assert!(!base.offline());
    assert_eq!(base.max_channel_count(), 6);
    // online contexts start with stereo
    assert_eq!(base.destination_channel_config().channel_count, 2);
    assert_eq!(sent(&mut base), vec!["register 0 destination 1 1 2"]);
    // the listener and its params have taken the ids up to 10
    assert_eq!(create_node(&mut base, "gain").id(), AudioNodeId(11));

    let (base, _producer) = online_context(1);
    assert_eq!(base.destination_channel_config().channel_count, 1);
}

#[test]
fn decommissioned_ids_are_used_again() {
    let (mut base, mut producer) = online_context(2);
    let gain = create_node(&mut base, "gain");
    assert_eq!(gain.id().0, 11);
    producer.push(llq::Node::new(11));
    assert_eq!(create_node(&mut base, "delay").id().0, 11);
    assert_eq!(create_node(&mut base, "panner").id().0, 12);
}

#[test]
fn repeated_connect_is_ignored() {
    let (mut base, _producer) = online_context(2);
    sent(&mut base);
    let (a, b) = (AudioNodeId(20), AudioNodeId(21));
    base.connect(a, b, 0, 0);
    base.connect(a, b, 0, 0);
    base.connect(a, b, 1, 0);
    assert_eq!(base.connection_count(), 2);
    assert!(base.has_connection(&Connection {
        from: a,
        output: 1,
        to: b,
        input: 0
    }));
    assert_eq!(
        sent(&mut base),
        vec!["connect 20:0 to 21:0", "connect 20:1 to 21:0"]
    );
}

#[test]
fn disconnect_is_selective() {
    let (mut base, _producer) = online_context(2);
    sent(&mut base);
    let (a, b, c) = (AudioNodeId(20), AudioNodeId(21), AudioNodeId(22));
    base.connect(a, b, 0, 0);
    base.connect(a, c, 0, 1);
    base.connect(a, c, 1, 0);
    base.connect(b, c, 0, 0);
    sent(&mut base);
    base.disconnect(a, Some(0), None, None);
    assert_eq!(
        sent(&mut base),
        vec!["disconnect 20:0 from 21:0", "disconnect 20:0 from 22:1"]
    );
    base.disconnect(a, None, Some(c), Some(0));
    assert_eq!(sent(&mut base), vec!["disconnect 20:1 from 22:0"]);
    assert_eq!(base.connection_count(), 1);
    base.disconnect(a, None, None, None);
    assert_eq!(base.connection_count(), 1);
}

#[test]
fn render_edges_follow_the_connections() {
    let (mut base, _producer) = online_context(2);
    while base.next_outgoing().is_some() {}
    let ids = [20, 21, 22].map(AudioNodeId);
    for from in ids {
        for to in ids {
            base.connect(from, to, 0, 0);
            base.connect(from, to, 0, 1);
            base.connect(from, to, 0, 0);
        }
    }
    base.disconnect(ids[0], None, Some(ids[1]), None);
    base.disconnect(ids[2], None, None, Some(1));
    base.connect(ids[0], ids[1], 0, 0);

    // a render thread that keeps every edge it is told of
    let mut edges = Vec::new();
    while let Some(outgoing) = base.next_outgoing() {
        match outgoing.message {
            ControlMessage::ConnectNode {
                from,
                to,
                input,
                output,
            } => edges.push(Connection {
                from,
                output,
                to,
                input,
            }),
            ControlMessage::DisconnectNode {
                from,
                to,
                input,
                output,
            } => edges.retain(|e| {
                *e != Connection {
                    from,
                    output,
                    to,
                    input,
                }
            }),
            _ => unreachable!(),
        }
    }
    assert_eq!(edges.len(), 18 - 2 - 3 + 1);
    assert_eq!(edges.len(), base.connection_count());
    assert!(edges.iter().all(|e| base.has_connection(e)));
}

#[test]
fn magic_nodes_are_never_dropped() {
    let (mut base, _producer) = online_context(2);
    let gain = create_node(&mut base, "gain");
    base.connect(gain.id(), AudioNodeId(DESTINATION_NODE_ID), 0, 0);
    sent(&mut base);
    for id in 0..11 {
        base.mark_node_dropped(AudioNodeId(id));
    }
    assert_eq!(base.connection_count(), 1);
    assert_eq!(sent(&mut base), Vec::<String>::new());
    base.mark_node_dropped(gain.id());
    assert_eq!(base.connection_count(), 0);
    assert_eq!(sent(&mut base), vec!["dropped 11"]);
}

#[test]
fn listener_is_added_when_it_is_first_used() {
    let (mut base, _producer) = online_context(2);
    sent(&mut base);
    let listener = base.listener();
    assert_eq!(listener.position_x().registration().id().0, 2);
    assert_eq!(listener.up_z().registration().id().0, 10);
    let value = |p: &web_audio_control::param::AudioParam| {
        f32::from_bits(p.into_raw_parts().default_value.bits)
    };
    assert_eq!(value(listener.position_y()), 0.);
    assert_eq!(value(listener.position_z()), 0.);
    assert_eq!(value(listener.forward_x()), 0.);
    assert_eq!(value(listener.forward_y()), 0.);
    assert_eq!(value(listener.forward_z()), -1.);
    assert_eq!(value(listener.up_x()), 0.);
    assert_eq!(value(listener.up_y()), 1.);
    let inner = listener.up_y().into_raw_parts();
    assert_eq!(f32::from_bits(inner.min_value.bits), f32::MIN);
    assert_eq!(f32::from_bits(inner.max_value.bits), f32::MAX);

    let messages = sent(&mut base);
    assert_eq!(messages[0], "register 1 listener 0 9 1");
    assert_eq!(messages[1], "register 10 param(0) 1 1 1");
    assert_eq!(messages[3], "register 8 param(0) 1 1 1");
    assert_eq!(messages[10], "connect 2:0 to 1 hidden");
    assert_eq!(messages[18], "connect 10:0 to 1 hidden");
    assert_eq!(messages[19], "connect 1:0 to 0 hidden");
    assert_eq!(messages.len(), 20);

    // a second use adds nothing
    let _ = base.listener();
    base.ensure_audio_listener_present();
    assert_eq!(sent(&mut base), Vec::<String>::new());

    base.connect_listener_to_panner(AudioNodeId(30));
    assert_eq!(
        sent(&mut base),
        vec![format!("connect {LISTENER_NODE_ID}:0 to 30 hidden")]
    );
}

#[test]
fn params_are_connected_once_their_node_is_registered() {
    let (mut base, _producer) = online_context(2);
    sent(&mut base);
    let gain = base.new_registration();
    let param = base.create_audio_param(
        AudioParamDescriptor {
            name: "gain".to_string(),
            automation_rate: AutomationRate::K,
            default_value: float(1.),
            min_value: float(f32::MIN),
            max_value: float(f32::MAX),
        },
        &gain,
    );
    assert_eq!(param.into_raw_parts().automation_rate, AutomationRate::K);
    assert_eq!(sent(&mut base), vec!["register 12 param(1) 1 1 1"]);
    base.register_node(&gain, NodeProcessor::Custom("gain"), ports());
    assert_eq!(
        sent(&mut base),
        vec!["register 11 gain 1 1 2", "connect 12:0 to 11 hidden"]
    );
    base.mark_cycle_breaker(&gain);
    assert_eq!(sent(&mut base), vec!["cycle breaker 11"]);
}

#[test]
fn nodes_are_registered_with_their_params() {
    let (mut base, _producer) = online_context(2);
    sent(&mut base);
    let (gain, param) = base.register(|base: &mut Base, registration| {
        let param = base.create_audio_param(
            AudioParamDescriptor {
                name: "gain".to_string(),
                automation_rate: AutomationRate::A,
                default_value: float(1.),
                min_value: float(f32::MIN),
                max_value: float(f32::MAX),
            },
            &registration,
        );
        (
            (registration, param),
            NodeProcessor::Custom("gain"),
            ports(),
        )
    });
    assert_eq!(gain.id().0, 11);
    assert_eq!(param.registration().id().0, 12);
    assert_eq!(
        sent(&mut base),
        vec![
            "register 12 param(1) 1 1 1",
            "register 11 gain 1 1 2",
            "connect 12:0 to 11 hidden"
        ]
    );
}

#[test]
fn suspension_holds_messages_back() {
    let (mut base, _producer) = online_context(2);
    sent(&mut base);
    base.suspend_control_msgs(ControlMessage::Render { payload: "suspend" });
    base.connect(AudioNodeId(20), AudioNodeId(21), 0, 0);
    base.send_control_msg(ControlMessage::Render { payload: "x" });
    assert_eq!(sent(&mut base), vec!["suspend"]);
    base.resume_control_msgs(ControlMessage::Render { payload: "resume" });
    base.send_control_msg(ControlMessage::Render { payload: "y" });
    assert_eq!(
        sent(&mut base),
        vec!["connect 20:0 to 21:0", "x", "resume", "y"]
    );
}

#[test]
fn closed_contexts_discard_messages() {
    let (mut base, _producer) = online_context(2);
    sent(&mut base);
    base.send_control_msg(ControlMessage::Render { payload: "early" });
    base.set_state(AudioContextState::Closed);
    base.send_control_msg(ControlMessage::Render { payload: "late" });
    base.resume_control_msgs(ControlMessage::Render { payload: "resume" });
    // the administration is still kept
    base.connect(AudioNodeId(20), AudioNodeId(21), 0, 0);
    assert_eq!(base.connection_count(), 1);
    // what was accepted before still goes out
    assert_eq!(sent(&mut base), vec!["early", "resume"]);
}

#[test]
fn stall_discards_what_is_behind_it() {
    let (mut base, _producer) = online_context(2);
    sent(&mut base);
    base.send_control_msg(ControlMessage::Render { payload: "x" });
    base.suspend_control_msgs(ControlMessage::Render { payload: "suspend" });
    base.send_control_msg(ControlMessage::Render { payload: "held back" });
    base.resume_control_msgs(ControlMessage::Render { payload: "resume" });
    base.send_control_msg(ControlMessage::Render { payload: "y" });
    base.discard_after_stall();
    assert_eq!(sent(&mut base), vec!["suspend", "held back", "resume"]);
}

#[test]
fn state_changes_are_announced_once() {
    let (mut base, _producer) = online_context(2);
    base.set_state(AudioContextState::Running);
    assert!(base.next_event().is_none());
    base.set_state(AudioContextState::Suspended);
    base.set_state(AudioContextState::Suspended);
    assert_eq!(base.state(), AudioContextState::Suspended);
    assert!(matches!(
        base.next_event(),
        Some(EventDispatch::StateChange(AudioContextState::Suspended))
    ));
    assert!(base.next_event().is_none());
    // the render thread announces its own state changes
    base.adopt_state(AudioContextState::Running);
    assert_eq!(base.state(), AudioContextState::Running);
    assert!(base.next_event().is_none());
}

#[test]
fn handlers_are_replaced_and_cleared() {
    let (mut base, _producer) = online_context(2);
    base.set_event_handler(EventType::StateChange, 1);
    base.set_event_handler(EventType::StateChange, 2);
    base.set_event_handler(EventType::Complete, 3);
    base.clear_event_handler(EventType::Complete);
    assert_eq!(base.take_event_handler(EventType::Complete), None);
    assert_eq!(base.take_event_handler(EventType::StateChange), Some(2));
    assert_eq!(base.take_event_handler(EventType::StateChange), None);
}
