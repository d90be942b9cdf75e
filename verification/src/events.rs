//! Context states, events, and the handlers that are registered for them.

use vstd::prelude::*;
use crate::param::Float32;

verus! {

/// State of an audio context.
#[derive(Clone, Copy, Debug, PartialEq, Eq, Structural)]
pub enum AudioContextState {
    Suspended,
    Running,
    Closed,
}

/// Sample data of a number of channels.
#[derive(Debug)]
pub struct AudioBuffer {
    channels: Vec<Vec<Float32>>,
    sample_rate: Float32,
}

/// The sample data of an audio buffer, as contracts speak of it.
#[verifier::ext_equal]
pub struct AudioBufferView {
    pub channels: Seq<Seq<Float32>>,
    pub sample_rate: Float32,
}

/// The samples of each channel.
pub open spec fn channel_views(channels: Seq<Vec<Float32>>) -> Seq<Seq<Float32>> {
    channels.map_values(|c: Vec<Float32>| c@)
}

impl View for AudioBuffer {
    type V = AudioBufferView;

    closed spec fn view(&self) -> AudioBufferView {
        AudioBufferView { channels: channel_views(self.channels@), sample_rate: self.sample_rate }
    }
}

impl AudioBuffer {
    /// Wraps sample data, one list of samples per channel.
    pub fn from(channels: Vec<Vec<Float32>>, sample_rate: Float32) -> (r: Self)
        ensures
            r@ == (AudioBufferView { channels: channel_views(channels@), sample_rate }),
    {
        AudioBuffer { channels, sample_rate }
    }

    /// Number of channels.
    pub fn number_of_channels(&self) -> (r: usize)
        ensures
            r == self@.channels.len(),
    {
        self.channels.len()
    }

    /// Number of sample frames: the length of the first channel, or zero without channels.
    pub fn length(&self) -> (r: usize)
        ensures
            r == (if self@.channels.len() == 0 {
                0
            } else {
                self@.channels[0].len()
            }),
    {
        if self.channels.len() == 0 {
            0
        } else {
            self.channels[0].len()
        }
    }

    /// Number of sample frames per second.
    pub fn sample_rate(&self) -> (r: Float32)
        ensures
            r == self@.sample_rate,
    {
        self.sample_rate
    }

    /// The samples of one channel.
    pub fn get_channel_data(&self, channel_number: usize) -> (r: &Vec<Float32>)
        requires
            channel_number < self@.channels.len(),
        ensures
            r@ == self@.channels[channel_number as int],
    {
        &self.channels[channel_number]
    }

    /// Copies the sample data.
    pub fn duplicate(&self) -> (r: Self)
        ensures
            r@ == self@,
    {
        let mut channels: Vec<Vec<Float32>> = Vec::new();
        let mut i: usize = 0;
        while i < self.channels.len()
            invariant
                i <= self.channels.len(),
                channels.len() == i,
                forall|c: int| 0 <= c < i ==> #[trigger] channels@[c]@ == self.channels@[c]@,
            decreases self.channels.len() - i,
        {
            let copy = self.channels[i].clone();
            assert(copy@ =~= self.channels@[i as int]@);
            channels.push(copy);
            i += 1;
        }
        let r = AudioBuffer { channels, sample_rate: self.sample_rate };
        assert(r@.channels =~= self@.channels);
        r
    }
}

/// An event for the control thread.
#[derive(Debug)]
pub enum EventDispatch {
    /// The context entered another state
    StateChange(AudioContextState),
    /// An offline context has rendered its buffer
    Complete(AudioBuffer),
}

/// An event, as contracts speak of it.
#[verifier::ext_equal]
pub enum EventView {
    StateChange(AudioContextState),
    Complete(AudioBufferView),
}

impl View for EventDispatch {
    type V = EventView;

    open spec fn view(&self) -> EventView {
        match *self {
            EventDispatch::StateChange(state) => EventView::StateChange(state),
            EventDispatch::Complete(buffer) => EventView::Complete(buffer@),
        }
    }
}

/// What kind of event a handler is registered for.
#[derive(Clone, Copy, Debug, PartialEq, Eq, Structural)]
pub enum EventType {
    StateChange,
    Complete,
}

/// Queue of events, and at most one handler for each kind of event.
pub struct EventLoop<H> {
    pending: Vec<EventDispatch>,
    on_state_change: Option<H>,
    on_complete: Option<H>,
}

/// An event loop, as contracts speak of it.
#[verifier::ext_equal]
pub struct EventLoopView<H> {
    /// events that have not been handled, oldest first
    pub pending: Seq<EventView>,
    pub on_state_change: Option<H>,
    pub on_complete: Option<H>,
}

impl<H> EventLoopView<H> {
    /// The handler that is active for a kind of event.
    pub open spec fn handler(self, event: EventType) -> Option<H> {
        match event {
            EventType::StateChange => self.on_state_change,
            EventType::Complete => self.on_complete,
        }
    }

    /// The event loop with another handler (or none) for one kind of event.
    pub open spec fn with_handler(self, event: EventType, handler: Option<H>) -> Self {
        match event {
            EventType::StateChange => EventLoopView { on_state_change: handler, ..self },
            EventType::Complete => EventLoopView { on_complete: handler, ..self },
        }
    }

    /// The event loop with one more event.
    pub open spec fn with_event(self, event: EventView) -> Self {
        EventLoopView { pending: self.pending.push(event), ..self }
    }
}

/// The views of a list of events.
pub open spec fn event_views(events: Seq<EventDispatch>) -> Seq<EventView> {
    events.map_values(|e: EventDispatch| e@)
}

impl<H> View for EventLoop<H> {
    type V = EventLoopView<H>;

    closed spec fn view(&self) -> EventLoopView<H> {
        EventLoopView {
            pending: event_views(self.pending@),
            on_state_change: self.on_state_change,
            on_complete: self.on_complete,
        }
    }
}

impl<H> EventLoop<H> {
    /// Creates an event loop without events and handlers.
    pub fn new() -> (r: Self)
        ensures
            r@ == (EventLoopView {
                pending: Seq::<EventView>::empty(),
                on_state_change: None::<H>,
                on_complete: None::<H>,
            }),
    {
        let r = EventLoop { pending: Vec::new(), on_state_change: None, on_complete: None };
        assert(r@.pending =~= Seq::<EventView>::empty());
        r
    }

    /// Queues an event.
    pub fn send(&mut self, event: EventDispatch)
        ensures
            final(self)@ == old(self)@.with_event(event@),
    {
        self.pending.push(event);
        assert(self@.pending =~= old(self)@.pending.push(event@));
    }

    /// Takes the oldest event out of the queue.
    pub fn next_event(&mut self) -> (r: Option<EventDispatch>)
        ensures
            match r {
                Some(event) => old(self)@.pending.len() > 0 && event@ == old(self)@.pending[0]
                    && final(self)@ == (EventLoopView {
                    pending: old(self)@.pending.skip(1),
                    ..old(self)@
                }),
                None => old(self)@.pending.len() == 0 && final(self)@ == old(self)@,
            },
    {
        if self.pending.len() == 0 {
            None
        } else {
            let event = self.pending.remove(0);
            assert(self@.pending =~= old(self)@.pending.skip(1));
            Some(event)
        }
    }

    /// Makes a handler the active one for a kind of event; an earlier one is dropped.
    pub fn set_handler(&mut self, event: EventType, handler: H)
        ensures
            final(self)@ == old(self)@.with_handler(event, Some(handler)),
    {
        match event {
            EventType::StateChange => {
                self.on_state_change = Some(handler);
            },
            EventType::Complete => {
                self.on_complete = Some(handler);
            },
        }
    }

    /// Drops the handler for a kind of event.
    pub fn clear_handler(&mut self, event: EventType)
        ensures
            final(self)@ == old(self)@.with_handler(event, None),
    {
        match event {
            EventType::StateChange => {
                self.on_state_change = None;
            },
            EventType::Complete => {
                self.on_complete = None;
            },
        }
    }

    /// Takes the handler for a kind of event out, to run it once.
    pub fn take_handler(&mut self, event: EventType) -> (r: Option<H>)
        ensures
            r == old(self)@.handler(event),
            final(self)@ == old(self)@.with_handler(event, None),
    {
        match event {
            EventType::StateChange => self.on_state_change.take(),
            EventType::Complete => self.on_complete.take(),
        }
    }
}

/// Only a single handler is active at any time: the last one that was set, and none once it is
/// cleared or taken. Handlers of the other kind of event are not affected.
pub proof fn law_last_handler_wins<H>(
    v: EventLoopView<H>,
    event: EventType,
    other: EventType,
    first: H,
    second: H,
)
    ensures
        v.with_handler(event, Some(first)).with_handler(event, Some(second)) == v.with_handler(
            event,
            Some(second),
        ),
        v.with_handler(event, Some(first)).with_handler(event, None).handler(event) is None,
        other != event ==> v.with_handler(event, Some(first)).handler(other) == v.handler(other),
{
}

} // verus!
