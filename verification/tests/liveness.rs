use std::sync::atomic::{AtomicU64, Ordering};

use web_audio_control::concrete_base::ConcreteBaseAudioContext;
use web_audio_control::events::{AudioContextState, EventLoop};
use web_audio_control::liveness::{
    Liveness, PollStep, RecvOutcome, ReplyProgress, SendOutcome, SendProgress, StallWatch,
};
use web_audio_control::message::ControlMessage;
use web_audio_control::param::Float32;

type Base = ConcreteBaseAudioContext<u32, ()>;

fn context() -> Base {
    let (_producer, consumer) = llq::Queue::new().split();
    ConcreteBaseAudioContext::new(
        Float32 {
            bits: 44100_f32.to_bits(),
        },
        2,
        AudioContextState::Running,
        Vec::new(),
        EventLoop::new(),
        false,
        consumer,
    )
}

fn message(payload: u32) -> ControlMessage<u32> {
    ControlMessage::Render { payload }
}

fn payload(message: ControlMessage<u32>) -> u32 {
    match message {
        ControlMessage::Render { payload } => payload,
        _ => unreachable!(),
    }
}

#[test]
fn messages_are_sent_in_order() {
    let mut base = context();
    let (sender, receiver) = crossbeam_channel::bounded(2);
    let frames = AtomicU64::new(0);
    let mut watch = StallWatch::start(&sender, &frames);
    for i in 0..2 {
        let (r, _) = base.send_to_render_thread(sender.clone(), &frames, &mut watch, message(i));
        assert!(matches!(r, SendProgress::Sent));
    }
    assert_eq!(payload(receiver.recv().unwrap()), 0);
    assert_eq!(payload(receiver.recv().unwrap()), 1);
    assert_eq!(base.state(), AudioContextState::Running);
}

#[test]
fn messages_to_a_render_thread_that_is_gone_are_discarded() {
    let mut base = context();
    let (sender, receiver) = crossbeam_channel::bounded(1);
    drop(receiver);
    let frames = AtomicU64::new(0);
    let mut watch = StallWatch::start(&sender, &frames);
    let (r, _) = base.send_to_render_thread(sender.clone(), &frames, &mut watch, message(1));
    assert!(matches!(r, SendProgress::Discarded));
    assert_eq!(base.state(), AudioContextState::Running);
}

#[test]
fn stalled_render_thread_closes_the_context() {
    let mut base = context();
    while base.next_outgoing().is_some() {}
    let (sender, _receiver) = crossbeam_channel::bounded(1);
    sender.send(message(0)).unwrap();
    let frames = AtomicU64::new(128);
    let mut watch = StallWatch::start(&sender, &frames);
    let start = std::time::Instant::now();
    let (r, _) = base.send_to_render_thread(sender.clone(), &frames, &mut watch, message(1));
    assert!(matches!(r, SendProgress::Stalled));
    assert!(start.elapsed() >= std::time::Duration::from_secs(2));
    assert_eq!(base.state(), AudioContextState::Closed);
    // from now on nothing is sent any more
    base.send_control_msg(message(2));
    assert!(base.next_outgoing().is_none());
}

#[test]
fn outbox_is_flushed_in_order() {
    let mut base = context();
    while base.next_outgoing().is_some() {}
    let (sender, receiver) = crossbeam_channel::bounded(2);
    let frames = AtomicU64::new(0);
    for i in 0..2 {
        base.send_control_msg(message(i));
    }
    assert!(base.flush(sender.clone(), &frames).0);
    assert!(base.flush(sender.clone(), &frames).0);
    for i in 0..2 {
        assert_eq!(payload(receiver.recv().unwrap()), i);
    }

    // what was accepted goes out although the context has been closed since
    base.send_control_msg(message(5));
    base.set_state(AudioContextState::Closed);
    assert!(base.flush(sender.clone(), &frames).0);
    assert_eq!(payload(receiver.recv().unwrap()), 5);
    base.set_state(AudioContextState::Running);

    // a stall closes the context: later messages are discarded, but for the request to resume
    for i in 0..4 {
        base.send_control_msg(message(i));
    }
    base.resume_control_msgs(message(9));
    assert!(base.flush(sender.clone(), &frames).0);
    assert_eq!(base.state(), AudioContextState::Closed);
    assert_eq!(payload(receiver.recv().unwrap()), 0);
    assert_eq!(payload(receiver.recv().unwrap()), 1);
    assert!(receiver.try_recv().is_err());
}

#[test]
fn held_back_messages_are_sent_in_order() {
    let mut base = context();
    while base.next_outgoing().is_some() {}
    let (sender, receiver) = crossbeam_channel::unbounded();
    let frames = AtomicU64::new(0);
    base.suspend_control_msgs(message(0));
    for i in 1..4 {
        base.send_control_msg(message(i));
    }
    let (done, sender) = base.flush(sender, &frames);
    assert!(done);
    assert_eq!(receiver.len(), 1);
    base.resume_control_msgs(message(4));
    base.send_control_msg(message(5));
    base.resume_control_msgs(message(6));
    let (done, _sender) = base.flush(sender, &frames);
    assert!(done);
    for i in 0..7 {
        assert_eq!(payload(receiver.recv().unwrap()), i);
    }
    assert!(receiver.is_empty());
}

#[test]
fn acknowledgement_is_given_up_after_the_grace_period() {
    let mut base = context();
    let frames = AtomicU64::new(128);
    let (_sender, receiver) = crossbeam_channel::bounded::<()>(1);
    let mut watch = StallWatch::start(&receiver, &frames);
    let start = std::time::Instant::now();
    let (answer, _receiver) = base.wait_for_render_thread(receiver, &frames, &mut watch);
    assert_eq!(answer, Some(false));
    assert!(start.elapsed() >= std::time::Duration::from_secs(2));
    assert_eq!(watch.stalled_ms, 2000);
    assert_eq!(base.state(), AudioContextState::Closed);
}

#[test]
fn messages_are_put_back_in_front() {
    let mut base = context();
    while base.next_outgoing().is_some() {}
    for i in 0..2 {
        base.send_control_msg(message(i));
    }
    let outgoing = base.next_outgoing().unwrap();
    assert!(!outgoing.even_after_stall);
    base.put_back(outgoing);
    for i in 0..2 {
        assert_eq!(payload(base.next_outgoing().unwrap().message), i);
    }
    assert!(base.next_outgoing().is_none());
}

#[test]
fn moving_playhead_hands_the_message_back() {
    let mut base = context();
    let (sender, _receiver) = crossbeam_channel::bounded(1);
    sender.send(message(0)).unwrap();
    let frames = AtomicU64::new(128);
    let mut watch = StallWatch::new(0);
    match base
        .send_to_render_thread(sender.clone(), &frames, &mut watch, message(7))
        .0
    {
        SendProgress::Pending(returned) => assert_eq!(payload(returned), 7),
        _ => unreachable!(),
    }
    assert_eq!(
        watch,
        StallWatch {
            last_frames: 128,
            stalled_ms: 0
        }
    );
    assert_eq!(base.state(), AudioContextState::Running);
}

#[test]
fn acknowledgements_are_waited_for() {
    let mut base = context();
    let frames = AtomicU64::new(0);
    let (sender, receiver) = crossbeam_channel::bounded(1);
    sender.send(()).unwrap();
    let mut watch = StallWatch::start(&receiver, &frames);
    assert_eq!(
        base.wait_for_render_thread(receiver.clone(), &frames, &mut watch)
            .0,
        Some(true)
    );
    // the playhead moves: go on waiting
    frames.store(128, Ordering::Relaxed);
    assert_eq!(
        base.wait_for_render_thread(receiver.clone(), &frames, &mut watch)
            .0,
        None
    );
    // the playhead stands still
    assert_eq!(
        base.wait_for_render_thread(receiver.clone(), &frames, &mut watch)
            .0,
        Some(false)
    );
    assert_eq!(base.state(), AudioContextState::Closed);
    // a render thread that is gone leaves nothing to wait for
    drop(sender);
    let mut watch = StallWatch::start(&receiver, &frames);
    assert_eq!(
        base.wait_for_render_thread(receiver.clone(), &frames, &mut watch)
            .0,
        Some(true)
    );
}

#[test]
fn replies_are_received_or_lost() {
    let mut base = context();
    let frames = AtomicU64::new(0);
    let (sender, receiver) = crossbeam_channel::bounded(1);
    sender.send(42).unwrap();
    let mut watch = StallWatch::start(&receiver, &frames);
    assert!(matches!(
        base.recv_from_render_thread(receiver.clone(), &frames, &mut watch)
            .0,
        ReplyProgress::Received(42)
    ));
    assert_eq!(base.state(), AudioContextState::Running);
    frames.store(128, Ordering::Relaxed);
    assert!(matches!(
        base.recv_from_render_thread(receiver.clone(), &frames, &mut watch)
            .0,
        ReplyProgress::Pending
    ));
    drop(sender);
    assert!(matches!(
        base.recv_from_render_thread(receiver.clone(), &frames, &mut watch)
            .0,
        ReplyProgress::Lost
    ));
    assert_eq!(base.state(), AudioContextState::Closed);
}

#[test]
fn outcomes_decide() {
    let mut base = context();
    let mut watch = StallWatch::new(5);
    assert!(matches!(
        base.after_send(&mut watch, SendOutcome::Sent, 5),
        PollStep::Done(SendProgress::Sent)
    ));
    assert!(matches!(
        base.after_send(&mut watch, SendOutcome::Disconnected(message(1)), 5),
        PollStep::Done(SendProgress::Discarded)
    ));
    assert!(matches!(
        base.after_send(&mut watch, SendOutcome::Timeout(message(1)), 5),
        PollStep::Again(ControlMessage::Render { payload: 1 })
    ));
    assert_eq!(watch.stalled_ms, 50);
    assert!(matches!(
        base.after_recv(&mut watch, RecvOutcome::<u8>::Timeout, 6),
        PollStep::Done(ReplyProgress::Pending)
    ));
    assert_eq!(watch.stalled_ms, 0);
    watch.stalled_ms = 1950;
    assert!(matches!(
        base.after_wait(&mut watch, RecvOutcome::Timeout, 6),
        PollStep::Done(Some(false))
    ));
    assert_eq!(base.state(), AudioContextState::Closed);
}

#[test]
fn grace_period_is_forty_polls() {
    let mut watch = StallWatch::new(0);
    for _ in 0..39 {
        assert_eq!(watch.on_timeout(0), Liveness::Waiting);
    }
    assert_eq!(watch.on_timeout(0), Liveness::Stalled);
    let mut watch = StallWatch::new(0);
    for _ in 0..39 {
        assert_eq!(watch.on_timeout(0), Liveness::Waiting);
    }
    assert_eq!(watch.on_timeout(128), Liveness::Progressing);
    assert_eq!(watch.on_timeout(128), Liveness::Waiting);
}
