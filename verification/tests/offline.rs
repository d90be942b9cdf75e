use std::sync::atomic::{AtomicBool, Ordering};
use std::sync::Arc;

use web_audio_control::events::{
    AudioBuffer, AudioContextState, EventDispatch, EventType,
};
use web_audio_control::ids::{AudioNodeId, DESTINATION_NODE_ID};
use web_audio_control::message::ControlMessage;
use web_audio_control::node::{
    ChannelConfig, ChannelCountMode, ChannelInterpretation, NodePorts, NodeProcessor,
    RENDER_QUANTUM_SIZE,
};
use web_audio_control::offline::{quanta_for, OfflineAudioContext, SuspendError};
use web_audio_control::param::Float32;
use web_audio_control::suspend::SuspendSchedule;

/// What only the render thread of these tests understands.
enum Payload {
    Graph(llq::Producer<u64>),
    /// a source that plays one constant
    Constant(f32),
    /// a source that plays something different at each frame
    Counter,
}

type Handler = Box<dyn FnOnce(&EventDispatch)>;
type Promise = Arc<AtomicBool>;
type Callback = Box<dyn FnOnce(&mut Context)>;

/// Breaks the cycle between the context and its callbacks.
struct Action(Callback);

type Context = OfflineAudioContext<Payload, Handler, Promise, Action>;

fn float(x: f32) -> Float32 {
    Float32 { bits: x.to_bits() }
}

fn samples(buffer: &AudioBuffer, channel: usize) -> Vec<f32> {
    buffer
        .get_channel_data(channel)
        .iter()
        .map(|s| f32::from_bits(s.bits))
        .collect()
}

fn new_context(number_of_channels: usize, length: usize, sample_rate: f32) -> Context {
    OfflineAudioContext::new(number_of_channels, length, float(sample_rate), Payload::Graph)
}

fn source_ports() -> NodePorts {
    NodePorts {
        inputs: 0,
        outputs: 1,
        channel_config: ChannelConfig {
            channel_count: 2,
            channel_count_mode: ChannelCountMode::Max,
            channel_interpretation: ChannelInterpretation::Speakers,
        },
    }
}

/// A render thread that sums the sources which are connected to the destination.
#[derive(Default)]
struct RenderThread {
    started: bool,
    sources: Vec<(u64, Option<f32>)>,
    connected: Vec<u64>,
    frame: usize,
}

impl RenderThread {
    fn handle_messages(&mut self, context: &mut Context) {
        while let Some(outgoing) = context.base_mut().next_outgoing() {
            match outgoing.message {
                ControlMessage::Startup { graph } => {
                    assert!(matches!(graph, Payload::Graph(_)));
                    self.started = true;
                }
                ControlMessage::RegisterNode { id, node, .. } => match node {
                    NodeProcessor::Custom(Payload::Constant(v)) => self.sources.push((id.0, Some(v))),
                    NodeProcessor::Custom(Payload::Counter) => self.sources.push((id.0, None)),
                    _ => {}
                },
                ControlMessage::ConnectNode { from, to, .. } if to.0 == DESTINATION_NODE_ID => {
                    self.connected.push(from.0)
                }
                ControlMessage::DisconnectNode { from, to, .. } if to.0 == DESTINATION_NODE_ID => {
                    self.connected.retain(|id| *id != from.0)
                }
                _ => {}
            }
        }
    }

    fn render(&mut self, channels: usize, frames: usize) -> Vec<Vec<Float32>> {
        assert!(self.started);
        let mut mono = Vec::new();
        for _ in 0..frames {
            let mut sum = 0.;
            for id in &self.connected {
                if let Some((_, value)) = self.sources.iter().find(|(s, _)| s == id) {
                    sum += value.unwrap_or((self.frame as f32 * 0.1).sin());
                }
            }
            mono.push(float(sum));
            self.frame += 1;
        }
        vec![mono; channels]
    }
}

/// Runs the handlers of the events that have not been handled.
fn handle_pending_events(context: &mut Context) {
    while let Some(event) = context.base_mut().next_event() {
        let event_type = match &event {
            EventDispatch::StateChange(_) => EventType::StateChange,
            EventDispatch::Complete(_) => EventType::Complete,
        };
        if let Some(handler) = context.base_mut().take_event_handler(event_type) {
            handler(&event);
        }
    }
}

/// Renders quantum by quantum, and runs what is due at each.
fn render_all<T>(
    context: &mut Context,
    mut schedule: SuspendSchedule<T>,
    mut run: impl FnMut(&mut Context, usize, T),
) -> AudioBuffer {
    let mut thread = RenderThread::default();
    let channels = context.base().max_channel_count();
    let sample_rate = context.base().sample_rate();
    let length = context.length();
    let mut output = vec![Vec::new(); channels];
    for quantum in 0..quanta_for(length) {
        if let Some(action) = schedule.take_due(quantum) {
            run(context, quantum, action);
        }
        thread.handle_messages(context);
        for (all, chunk) in output
            .iter_mut()
            .zip(thread.render(channels, RENDER_QUANTUM_SIZE))
        {
            all.extend(chunk);
        }
        handle_pending_events(context);
    }
    for channel in output.iter_mut() {
        channel.truncate(length);
    }
    AudioBuffer::from(output, sample_rate)
}

fn start_rendering_sync(context: &mut Context) -> AudioBuffer {
    let channels = context.base().max_channel_count();
    let length = context.length();
    let (result, thread) = context.start_rendering_sync(
        RenderThread::default(),
        |context, Action(callback)| {
            assert_eq!(context.base().state(), AudioContextState::Suspended);
            callback(context);
        },
        |context, mut thread| {
            assert_eq!(context.base().state(), AudioContextState::Running);
            thread.handle_messages(context);
            let samples = thread.render(channels, RENDER_QUANTUM_SIZE);
            handle_pending_events(context);
            (samples, thread)
        },
    );
    // each quantum was rendered once
    assert_eq!(thread.frame, quanta_for(length) * RENDER_QUANTUM_SIZE);
    handle_pending_events(context);
    result
}

fn start_rendering(
    context: &mut Context,
    on_suspend: impl Fn(&mut Context),
) -> AudioBuffer {
    let schedule = context.start_rendering();
    let buffer = render_all(context, schedule, |context, quantum, promise| {
        promise.store(true, Ordering::Relaxed);
        context.enter_suspension(quantum);
        on_suspend(context);
        context.resume();
    });
    let result = context.finish_rendering(buffer);
    handle_pending_events(context);
    result
}

/// Renders up to a frame with a render thread that lives across calls.
fn render_upto_sync(context: &mut Context, thread: &mut RenderThread, upto_frame: usize) -> usize {
    thread.handle_messages(context);
    let channels = context.base().max_channel_count();
    let frames = context.render_upto_sync(upto_frame, |quanta| {
        thread.render(channels, quanta * RENDER_QUANTUM_SIZE)
    });
    handle_pending_events(context);
    frames
}

fn create_source(context: &mut Context, payload: Payload) -> AudioNodeId {
    context
        .base_mut()
        .register_processor(NodeProcessor::Custom(payload), source_ports())
        .id()
}

fn connect_to_destination(context: &mut Context, id: AudioNodeId) {
    context
        .base_mut()
        .connect(id, AudioNodeId(DESTINATION_NODE_ID), 0, 0);
}

fn build_graph(context: &mut Context) {
    let id = create_source(context, Payload::Counter);
    connect_to_destination(context, id);
}

#[test]
fn test_sample_rate_length() {
    let context = new_context(1, 48000, 96000.);
    assert_eq!(f32::from_bits(context.base().sample_rate().bits), 96000.);
    assert_eq!(context.length(), 48000);
}

#[test]
fn render_empty_graph() {
    let mut context = new_context(2, 555, 44_100.);
    assert_eq!(context.base().state(), AudioContextState::Suspended);
    let buffer = start_rendering_sync(&mut context);

    assert_eq!(context.length(), 555);

    assert_eq!(buffer.number_of_channels(), 2);
    assert_eq!(buffer.length(), 555);
    assert_eq!(f32::from_bits(buffer.sample_rate().bits), 44_100.);
    assert_eq!(samples(&buffer, 0), vec![0.; 555]);
    assert_eq!(samples(&buffer, 1), vec![0.; 555]);

    assert_eq!(context.base().state(), AudioContextState::Closed);
}

#[test]
fn rendering_starts_once() {
    let mut context = new_context(2, 555, 44_100.);
    assert!(context.can_start_rendering());
    let _ = start_rendering_sync(&mut context);
    assert!(!context.can_start_rendering());
}

#[test]
fn test_suspend_sync() {
    let len = RENDER_QUANTUM_SIZE * 4;
    let sample_rate = 48000_f64;

    let mut context = new_context(1, len, sample_rate as f32);

    context.suspend_sync(
        1,
        Action(Box::new(|context: &mut Context| {
            assert_eq!(context.base().state(), AudioContextState::Suspended);
            let src = create_source(context, Payload::Constant(1.));
            assert_eq!(src, AudioNodeId(11));
            connect_to_destination(context, src);
        })),
    );
    context.suspend_sync(
        3,
        Action(Box::new(|context: &mut Context| {
            assert_eq!(context.base().state(), AudioContextState::Suspended);
            // the source got the first id that is available to ordinary nodes
            context.base_mut().disconnect(AudioNodeId(11), None, None, None);
        })),
    );

    let output = start_rendering_sync(&mut context);
    let channel = samples(&output, 0);

    assert_eq!(channel[..RENDER_QUANTUM_SIZE], [0.; RENDER_QUANTUM_SIZE][..]);
    assert_eq!(
        channel[RENDER_QUANTUM_SIZE..3 * RENDER_QUANTUM_SIZE],
        [1.; 2 * RENDER_QUANTUM_SIZE][..]
    );
    assert_eq!(
        channel[3 * RENDER_QUANTUM_SIZE..4 * RENDER_QUANTUM_SIZE],
        [0.; RENDER_QUANTUM_SIZE][..]
    );
}

#[test]
fn render_suspend_resume_async() {
    let mut context = new_context(1, 512, 44_100.);

    let promise = Arc::new(AtomicBool::new(false));
    assert_eq!(context.check_suspend(1), Ok(()));
    context.suspend(1, Arc::clone(&promise));
    assert!(!context.can_resume());

    let buffer = start_rendering(&mut context, |context| {
        assert_eq!(context.base().state(), AudioContextState::Suspended);
        assert!(context.can_resume());
        let src = create_source(context, Payload::Constant(1.));
        connect_to_destination(context, src);
    });
    assert!(promise.load(Ordering::Relaxed));
    assert!(!context.can_resume());

    assert_eq!(buffer.number_of_channels(), 1);
    assert_eq!(buffer.length(), 512);

    assert_eq!(samples(&buffer, 0)[..128], [0.; 128][..]);
    assert_eq!(samples(&buffer, 0)[128..], [1.; 384][..]);
}

#[test]
fn suspensions_are_checked() {
    let mut context = new_context(2, 1000, 44_100.);
    assert_eq!(
        context.check_suspend(0),
        Err(SuspendError::NotAfterCurrentTime)
    );
    // the last quantum starts at frame 896
    assert_eq!(context.check_suspend(7), Ok(()));
    assert_eq!(context.check_suspend(8), Err(SuspendError::NotBeforeEnd));
    assert_eq!(
        context.check_suspend_sync(usize::MAX),
        Err(SuspendError::NotBeforeEnd)
    );

    context.suspend_sync(5, Action(Box::new(|_: &mut Context| ())));
    assert_eq!(
        context.check_suspend_sync(5),
        Err(SuspendError::AlreadyScheduled)
    );
    assert_eq!(context.check_suspend_sync(4), Ok(()));
    // promises and callbacks do not stand in each other's way
    assert_eq!(context.check_suspend(5), Ok(()));
    context.suspend(5, Arc::new(AtomicBool::new(false)));
    assert_eq!(context.check_suspend(5), Err(SuspendError::AlreadyScheduled));

    let _ = start_rendering_sync(&mut context);
    assert_eq!(
        context.check_suspend(4),
        Err(SuspendError::RenderingStarted)
    );
    assert_eq!(
        context.check_suspend_sync(4),
        Err(SuspendError::RenderingStarted)
    );

    assert_eq!(
        SuspendError::AlreadyScheduled.message(),
        "InvalidStateError - cannot suspend multiple times at the same render quantum"
    );
    assert_eq!(
        SuspendError::RenderingStarted.message(),
        "InvalidStateError - cannot suspend when rendering has already started"
    );
    assert_eq!(
        SuspendError::NotBeforeEnd.message(),
        "InvalidStateError: suspendTime cannot be greater than or equal to the total render duration"
    );
    assert_eq!(
        SuspendError::NotAfterCurrentTime.message(),
        "InvalidStateError: suspendTime cannot be less than or equal to the current time"
    );
}

#[test]
fn schedule_is_sorted() {
    let mut schedule = SuspendSchedule::new();
    for quantum in [8_usize, 3, 5, 1, 13] {
        assert!(!schedule.contains(quantum));
        schedule.insert(quantum, quantum * 10);
        assert!(schedule.contains(quantum));
    }
    assert_eq!(schedule.len(), 5);
    assert_eq!(schedule.search(5), Ok(2));
    assert_eq!(schedule.search(6), Err(3));
    assert_eq!(schedule.search(0), Err(0));
    assert_eq!(schedule.search(14), Err(5));
    assert_eq!(schedule.take_due(3), None);
    for quantum in [1_usize, 3, 5, 8, 13] {
        assert_eq!(schedule.take_due(quantum), Some(quantum * 10));
    }
    assert_eq!(schedule.len(), 0);

    // the order of scheduling does not matter
    let mut other = SuspendSchedule::new();
    for quantum in [1_usize, 13, 8, 5, 3] {
        other.insert(quantum, quantum * 10);
    }
    for quantum in 0..20 {
        let expected = [1, 3, 5, 8, 13].contains(&quantum).then_some(quantum * 10);
        assert_eq!(other.take_due(quantum), expected);
    }
}

#[test]
fn test_onstatechange() {
    let mut context = new_context(2, 555, 44_100.);

    let changed = Arc::new(AtomicBool::new(false));
    let changed_clone = Arc::clone(&changed);
    context.base_mut().set_event_handler(
        EventType::StateChange,
        Box::new(move |_event| {
            changed_clone.store(true, Ordering::Relaxed);
        }),
    );

    let _ = start_rendering_sync(&mut context);

    assert!(changed.load(Ordering::Relaxed));
}

#[test]
fn test_onstatechange_async() {
    let mut context = new_context(2, 555, 44_100.);

    let changed = Arc::new(AtomicBool::new(false));
    let changed_clone = Arc::clone(&changed);
    context.base_mut().set_event_handler(
        EventType::StateChange,
        Box::new(move |_event| {
            changed_clone.store(true, Ordering::Relaxed);
        }),
    );

    let _ = start_rendering(&mut context, |_| ());

    assert!(changed.load(Ordering::Relaxed));
}

#[test]
fn test_oncomplete() {
    let mut context = new_context(2, 555, 44_100.);

    let complete = Arc::new(AtomicBool::new(false));
    let complete_clone = Arc::clone(&complete);
    context.set_oncomplete(Box::new(move |event: &EventDispatch| {
        match event {
            EventDispatch::Complete(rendered_buffer) => assert_eq!(rendered_buffer.length(), 555),
            EventDispatch::StateChange(_) => unreachable!(),
        }
        complete_clone.store(true, Ordering::Relaxed);
    }));

    let _ = start_rendering_sync(&mut context);

    assert!(complete.load(Ordering::Relaxed));
}

#[test]
fn test_oncomplete_async() {
    let mut context = new_context(2, 555, 44_100.);

    let complete = Arc::new(AtomicBool::new(false));
    let complete_clone = Arc::clone(&complete);
    context.set_oncomplete(Box::new(move |event: &EventDispatch| {
        match event {
            EventDispatch::Complete(rendered_buffer) => assert_eq!(rendered_buffer.length(), 555),
            EventDispatch::StateChange(_) => unreachable!(),
        }
        complete_clone.store(true, Ordering::Relaxed);
    }));

    let _ = start_rendering(&mut context, |_| ());

    assert!(complete.load(Ordering::Relaxed));
}

#[test]
fn last_oncomplete_handler_wins() {
    let mut context = new_context(1, 128, 44_100.);
    let calls = Arc::new(std::sync::Mutex::new(Vec::new()));
    for i in 0..2 {
        let calls = Arc::clone(&calls);
        context.set_oncomplete(Box::new(move |_: &EventDispatch| {
            calls.lock().unwrap().push(i);
        }));
    }
    let _ = start_rendering_sync(&mut context);
    assert_eq!(*calls.lock().unwrap(), vec![1]);

    let mut context = new_context(1, 128, 44_100.);
    context.set_oncomplete(Box::new(|_: &EventDispatch| unreachable!()));
    context.clear_oncomplete();
    let _ = start_rendering_sync(&mut context);
}

#[test]
fn test_chunked_render_equals_one_shot() {
    // Rendering in arbitrary increments must produce the exact same samples
    // as a single start_rendering_sync pass over an identical graph.
    let length = 1000; // deliberately not a multiple of the quantum size

    let mut reference = new_context(1, length, 48000.);
    build_graph(&mut reference);
    let expected = start_rendering_sync(&mut reference);

    let mut chunked = new_context(1, length, 48000.);
    let mut thread = RenderThread::default();
    build_graph(&mut chunked);
    assert_eq!(render_upto_sync(&mut chunked, &mut thread, 100), 128); // rounded up to quanta
    assert_eq!(chunked.base().state(), AudioContextState::Suspended);
    assert_eq!(render_upto_sync(&mut chunked, &mut thread, 600), 640);
    let frames = render_upto_sync(&mut chunked, &mut thread, usize::MAX);
    assert_eq!(frames, length);
    assert_eq!(chunked.base().state(), AudioContextState::Closed);

    let result = chunked.take_rendered_sync().expect("render finished");
    assert_eq!(samples(&result, 0), samples(&expected, 0));
    assert!(samples(&result, 0).iter().any(|s| *s != 0.));

    // The result can only be taken once; afterwards the frame count keeps
    // reporting the full length and further render calls are no-ops.
    assert!(chunked.take_rendered_sync().is_none());
    assert_eq!(render_upto_sync(&mut chunked, &mut thread, usize::MAX), length);
    assert_eq!(chunked.rendered_frames_sync(), length);
}

#[test]
fn rendering_never_goes_back() {
    let mut context = new_context(2, 300, 48000.);
    let mut thread = RenderThread::default();
    assert_eq!(context.rendered_frames_sync(), 0);
    assert_eq!(render_upto_sync(&mut context, &mut thread, 0), 0);
    assert_eq!(context.base().state(), AudioContextState::Suspended);
    assert!(!context.can_start_rendering());
    assert_eq!(render_upto_sync(&mut context, &mut thread, 129), 256);
    assert_eq!(render_upto_sync(&mut context, &mut thread, 1), 256);
    assert_eq!(render_upto_sync(&mut context, &mut thread, 128), 256);
    assert!(context.take_rendered_sync().is_none());
    assert_eq!(render_upto_sync(&mut context, &mut thread, 299), 300);
    assert_eq!(context.take_rendered_sync().unwrap().length(), 300);
}

#[test]
fn incremental_render_announces_its_states() {
    let mut context = new_context(1, 256, 48000.);
    let mut thread = RenderThread::default();
    thread.handle_messages(&mut context);
    for upto_frame in [128, 256] {
        let _ = context.render_upto_sync(upto_frame, |quanta| {
            thread.render(1, quanta * RENDER_QUANTUM_SIZE)
        });
    }
    let mut states = Vec::new();
    let mut complete = 0;
    while let Some(event) = context.base_mut().next_event() {
        match event {
            EventDispatch::StateChange(state) => states.push(state),
            EventDispatch::Complete(buffer) => {
                assert_eq!(buffer.length(), 256);
                complete += 1;
            }
        }
    }
    assert_eq!(
        states,
        vec![
            AudioContextState::Running,
            AudioContextState::Suspended,
            AudioContextState::Running,
            AudioContextState::Closed,
        ]
    );
    assert_eq!(complete, 1);
}

#[test]
fn test_render_upto_after_start_rendering_is_noop() {
    // start_rendering_sync claims the renderer; a later incremental call
    // must not panic or deadlock, just report the current frame count.
    let mut context = new_context(1, 256, 48000.);
    build_graph(&mut context);
    let _ = start_rendering_sync(&mut context);
    let mut thread = RenderThread::default();
    let _ = render_upto_sync(&mut context, &mut thread, usize::MAX);
    assert_eq!(context.base().state(), AudioContextState::Closed);
}

#[test]
fn frame_count_tells_what_was_rendered() {
    let mut context = new_context(1, 256, 48000.);
    assert_eq!(context.rendered_frames_sync(), 0);
    let _ = start_rendering_sync(&mut context);
    assert_eq!(context.rendered_frames_sync(), 256);
    let mut thread = RenderThread::default();
    assert_eq!(render_upto_sync(&mut context, &mut thread, 1), 256);

    // while it is suspended, the frames before have been rendered
    let mut context = new_context(1, 1000, 48000.);
    let counts = Arc::new(std::sync::Mutex::new(Vec::new()));
    for quantum in [7, 2, 4] {
        let counts = Arc::clone(&counts);
        context.suspend_sync(
            quantum,
            Action(Box::new(move |context: &mut Context| {
                counts.lock().unwrap().push(context.rendered_frames_sync());
            })),
        );
    }
    assert!(counts.lock().unwrap().is_empty());
    let _ = start_rendering_sync(&mut context);
    assert_eq!(*counts.lock().unwrap(), vec![256, 512, 896]);
    assert_eq!(context.rendered_frames_sync(), 1000);
}

#[test]
fn frame_count_never_goes_back() {
    let mut context = new_context(1, 1000, 48000.);
    let _ = context.claim_renderer_sync();
    for (quantum, count) in [(4, 512), (1, 512), (7, 896), (20, 1000), (2, 1000)] {
        context.enter_suspension(quantum);
        assert_eq!(context.rendered_frames_sync(), count);
        assert_eq!(context.base().state(), AudioContextState::Suspended);
        context.leave_suspension();
        assert_eq!(context.rendered_frames_sync(), count);
    }
}

#[test]
fn quanta_are_rounded_up() {
    assert_eq!(quanta_for(0), 0);
    assert_eq!(quanta_for(1), 1);
    assert_eq!(quanta_for(128), 1);
    assert_eq!(quanta_for(129), 2);
    assert_eq!(quanta_for(usize::MAX), usize::MAX / 128 + 1);
}
