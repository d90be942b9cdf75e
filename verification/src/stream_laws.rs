//! What holds of audio streams whatever the device does.

use vstd::prelude::*;
use crate::backend::{BackendErrorView, CpalError};
use crate::node::MAX_CHANNELS;
use crate::streams::{
    AudioContextLatencyCategory, BufferSize, BuildStepView, CallbackAction, CpalBackendView,
    StreamBuildView, SupportedBufferSize, input_config, output_config, sound_buffer_sizes,
};

verus! {

/// Whether a stream that is being set up has at most the supported number of channels, and if it
/// asks for a buffer size, for one that the device supports.
pub open spec fn is_sound_build(build: StreamBuildView) -> bool {
    &&& build.config.channels <= MAX_CHANNELS
    &&& match build.config.buffer_size {
        BufferSize::Default => true,
        BufferSize::Fixed(size) => match build.supported.buffer_size {
            SupportedBufferSize::Unknown => true,
            SupportedBufferSize::Range { min, max } => min <= size <= max,
        },
    }
}

/// The configuration that an output stream is first tried with is sound, and keeps the number of
/// channels of the device if that is supported.
pub proof fn law_output_stream_starts_sound(
    build: StreamBuildView,
    requested_sample_rate: Option<u32>,
    buffer_size: u32,
    latency_hint: AudioContextLatencyCategory,
    android: bool,
)
    requires
        sound_buffer_sizes(build.supported.buffer_size),
        build.config == output_config(
            build.supported,
            requested_sample_rate,
            buffer_size,
            latency_hint,
            android,
        ),
    ensures
        is_sound_build(build),
        build.supported.channels <= MAX_CHANNELS ==> build.config.channels
            == build.supported.channels,
{
}

/// The configuration that an input stream is first tried with is sound. It asks neither for more
/// channels than the device has nor for more than were requested, and for as many as were requested
/// if the device has them and they are supported.
pub proof fn law_input_stream_starts_sound(
    build: StreamBuildView,
    requested_channels: Option<u32>,
    requested_sample_rate: Option<u32>,
    buffer_size: u32,
)
    requires
        sound_buffer_sizes(build.supported.buffer_size),
        build.config == input_config(
            build.supported,
            requested_channels,
            requested_sample_rate,
            buffer_size,
        ),
    ensures
        is_sound_build(build),
        build.config.channels <= build.supported.channels,
        requested_channels matches Some(n) ==> {
            &&& build.config.channels <= n
            &&& n <= build.supported.channels && n <= MAX_CHANNELS ==> build.config.channels == n
        },
{
}

/// A sound stream stays sound while it is set up, and the backend that comes of it reports the
/// channels and the sample rate that the stream was spawned with.
pub proof fn law_stream_stays_sound(
    build: StreamBuildView,
    spawned: Result<(), CpalError>,
    played: Result<(), CpalError>,
)
    requires
        is_sound_build(build),
    ensures
        is_sound_build(build.spawned(spawned).0),
        build.spawned(spawned).1 matches BuildStepView::Spawn(config) ==> config == build.spawned(
            spawned,
        ).0.config,
        build.played(played) matches Ok(backend) ==> {
            &&& backend.number_of_channels == build.config.channels
            &&& backend.number_of_channels <= MAX_CHANNELS
            &&& backend.sample_rate == build.config.sample_rate
            &&& backend.sink_id == build.sink_id
        },
{
}

/// A stream is spawned at most twice: a second failure is final.
pub proof fn law_second_failure_is_final(
    build: StreamBuildView,
    first: CpalError,
    second: Result<(), CpalError>,
)
    requires
        !build.fallback,
    ensures
        ({
            let (after, step) = build.spawned(Err(first));
            &&& step is Failed || (step is Spawn && after.fallback)
            &&& step is Spawn ==> !(after.spawned(second).1 is Spawn)
        }),
{
}

/// Suspending works on every device, also on one that cannot pause: the stream either pauses, or
/// its callback falls silent. Resuming such a device succeeds even if it cannot play, and its
/// callback renders again.
pub proof fn law_suspension_needs_no_pause(
    backend: CpalBackendView,
    reason: CpalError,
    played: Result<(), CpalError>,
)
    ensures
        ({
            let suspended = backend.paused(Err(reason));
            let resumed = CpalBackendView { suspended: false, ..suspended };
            &&& suspended.callback_action() == CallbackAction::Silence
            &&& suspended.resumed(played) == Ok::<bool, BackendErrorView>(true)
            &&& resumed.callback_action() == CallbackAction::Render
        }),
{
}

} // verus!
