use web_audio_control::concrete_base::ConcreteBaseAudioContext;
use web_audio_control::events::{AudioContextState, EventLoop};
use web_audio_control::node::{ChannelCountMode, ChannelInterpretation};
use web_audio_control::param::{AutomationRate, Float32};
use web_audio_control::spatial::{AudioListenerNode, AudioListenerParams, ListenerRenderer};

#[test]
fn listener_node() {
    let (_producer, consumer) = llq::Queue::new().split();
    let mut base: ConcreteBaseAudioContext<(), ()> = ConcreteBaseAudioContext::new(
        Float32 {
            bits: 48000_f32.to_bits(),
        },
        2,
        AudioContextState::Suspended,
        Vec::new(),
        EventLoop::new(),
        false,
        consumer,
    );
    // every context has a listener already, this one takes fresh ids
    let node = AudioListenerNode::new(&mut base);
    assert_eq!(node.registration().id().0, 11);
    assert_eq!(node.number_of_inputs(), 0);
    assert_eq!(node.number_of_outputs(), 9);
    let config = node.channel_config();
    assert_eq!(config.channel_count, 1);
    assert_eq!(config.channel_count_mode, ChannelCountMode::Explicit);
    assert_eq!(
        config.channel_interpretation,
        ChannelInterpretation::Discrete
    );

    let listener = node.into_fields();
    assert_eq!(listener.position_x().registration().id().0, 12);
    assert_eq!(listener.up_z().registration().id().0, 20);
    assert_eq!(
        listener.position_x().into_raw_parts().automation_rate,
        AutomationRate::A
    );

    // put together again, the params have the ids that every context gives them
    let again = AudioListenerParams::from_listener(listener).listener();
    assert_eq!(again.position_x().registration().id().0, 2);
    assert_eq!(again.forward_z().registration().id().0, 7);
    assert_eq!(
        f32::from_bits(again.forward_z().into_raw_parts().default_value.bits),
        -1.
    );
}

#[test]
fn listener_renderer_stays() {
    assert!(ListenerRenderer {}.process());
}
