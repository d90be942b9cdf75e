//! What the configuration of a stream is, how a stream is set up, and what a backend does with it.

use vstd::prelude::*;
use crate::backend::{
    AudioBackendError, AudioBackendErrorKind, BackendErrorView, BackendResult, CpalError, HostProbe,
    device_unavailable, get_host, map_cpal_backend_error, map_cpal_error, preferred_host,
    usable_host,
};
use crate::devices::{DeviceDescription, result_view};
use crate::streams::{
    AudioContextLatencyCategory, BufferSize, BuildStep, CallbackAction, CpalBackend,
    CpalBackendView, Direction, SampleFormat, StreamBuild, StreamConfig, SupportedBufferSize,
    SupportedStreamConfig, clamped_buffer_size, inspect_device, preferred_input_config,
    preferred_output_config, preferred_sample_rate, spawn_input_stream, spawn_output_stream,
};
use crate::text::decimal;
use crate::text_laws::{lemma_decimal_writes_number, writes_number};

verus! {

/// A stream has the sample rate that was requested, and without a request the one of the device,
/// whatever that is.
pub proof fn law_sample_rate_is_requested_or_the_device_s(
    supported: SupportedStreamConfig,
    requested: Option<u32>,
    r: u32,
)
    requires
        call_ensures(preferred_sample_rate, (&supported, requested), r),
    ensures
        requested is None ==> r == supported.sample_rate,
        requested is Some ==> r == requested->0,
{
}

/// The buffer size that a device is asked for is one that it supports, and the wanted one if it
/// supports that; otherwise it is the end of the range that is nearest.
pub proof fn law_buffer_size_is_supported(wanted: u32, supported: SupportedBufferSize, r: u32)
    requires
        call_ensures(clamped_buffer_size, (wanted, supported), r),
        supported matches SupportedBufferSize::Range { min, max } ==> min <= max,
    ensures
        supported is Unknown ==> r == wanted,
        supported matches SupportedBufferSize::Range { min, max } ==> {
            &&& min <= r <= max
            &&& min <= wanted <= max ==> r == wanted
            &&& wanted < min ==> r == min
            &&& wanted > max ==> r == max
        },
{
}

/// The first configuration of an output stream: as many channels as the device has, but at most 32;
/// the sample rate that was requested, or else the one of the device; and the wanted buffer size as
/// far as the device supports it, but for small latencies on android, which take the default size.
pub proof fn law_first_output_configuration(
    supported: SupportedStreamConfig,
    requested_sample_rate: Option<u32>,
    buffer_size: u32,
    latency_hint: AudioContextLatencyCategory,
    android: bool,
    r: StreamConfig,
)
    requires
        call_ensures(
            preferred_output_config,
            (&supported, requested_sample_rate, buffer_size, latency_hint, android),
            r,
        ),
        supported.buffer_size matches SupportedBufferSize::Range { min, max } ==> min <= max,
    ensures
        supported.channels <= 32 ==> r.channels == supported.channels,
        supported.channels > 32 ==> r.channels == 32,
        requested_sample_rate is None ==> r.sample_rate == supported.sample_rate,
        requested_sample_rate is Some ==> r.sample_rate == requested_sample_rate->0,
        r.buffer_size is Default <==> android && (latency_hint is Balanced
            || latency_hint is Interactive),
        r.buffer_size matches BufferSize::Fixed(size) ==> {
            &&& supported.buffer_size is Unknown ==> size == buffer_size
            &&& supported.buffer_size matches SupportedBufferSize::Range { min, max } ==> {
                &&& min <= size <= max
                &&& min <= buffer_size <= max ==> size == buffer_size
                &&& buffer_size < min ==> size == min
                &&& buffer_size > max ==> size == max
            }
        },
{
}

/// The first configuration of an input stream: as many channels as were requested, but no more than
/// the device has and at most 32; the sample rate that was requested, or else the one of the device;
/// and the wanted buffer size as far as the device supports it.
pub proof fn law_first_input_configuration(
    supported: SupportedStreamConfig,
    requested_channels: Option<u32>,
    requested_sample_rate: Option<u32>,
    buffer_size: u32,
    r: StreamConfig,
)
    requires
        call_ensures(
            preferred_input_config,
            (&supported, requested_channels, requested_sample_rate, buffer_size),
            r,
        ),
        supported.buffer_size matches SupportedBufferSize::Range { min, max } ==> min <= max,
    ensures
        r.channels <= 32,
        r.channels <= supported.channels,
        requested_channels is None ==> r.channels == 32 || r.channels == supported.channels,
        requested_channels matches Some(n) ==> {
            let low = n & 0xffff;
            &&& r.channels <= low
            &&& r.channels == 32 || r.channels == supported.channels || r.channels == low
            &&& n < 65536 ==> low == n
        },
        requested_sample_rate is None ==> r.sample_rate == supported.sample_rate,
        requested_sample_rate is Some ==> r.sample_rate == requested_sample_rate->0,
        r.buffer_size matches BufferSize::Fixed(size) && {
            &&& supported.buffer_size is Unknown ==> size == buffer_size
            &&& supported.buffer_size matches SupportedBufferSize::Range { min, max } ==> {
                &&& min <= size <= max
                &&& min <= buffer_size <= max ==> size == buffer_size
                &&& buffer_size < min ==> size == min
                &&& buffer_size > max ==> size == max
            }
        },
{
    if requested_channels is Some {
        let n = requested_channels->0;
        assert(n & 0xffff == n % 65536) by (bit_vector);
    }
}

/// Setting up an output stream starts with the first configuration, for the device and under the sink
/// id that it was given.
pub proof fn law_output_stream_starts_with_the_first_configuration(
    supported: SupportedStreamConfig,
    requested_sample_rate: Option<u32>,
    buffer_size: u32,
    latency_hint: AudioContextLatencyCategory,
    android: bool,
    sink_id: String,
    first: StreamConfig,
    build: StreamBuild,
    config: StreamConfig,
)
    requires
        call_ensures(
            preferred_output_config,
            (&supported, requested_sample_rate, buffer_size, latency_hint, android),
            first,
        ),
        call_ensures(
            CpalBackend::build_output,
            (supported, requested_sample_rate, buffer_size, latency_hint, android, sink_id),
            build,
        ),
        call_ensures(StreamBuild::config, (&build,), config),
    ensures
        config == first,
        build@.config == first,
        build@.direction == Direction::Output,
        build@.supported == supported,
        !build@.fallback,
        build@.sink_id == sink_id@,
{
}

/// Setting up an input stream starts with the first configuration, for the device and under the sink
/// id that it was given.
pub proof fn law_input_stream_starts_with_the_first_configuration(
    supported: SupportedStreamConfig,
    requested_channels: Option<u32>,
    requested_sample_rate: Option<u32>,
    buffer_size: u32,
    sink_id: String,
    first: StreamConfig,
    build: StreamBuild,
    config: StreamConfig,
)
    requires
        call_ensures(
            preferred_input_config,
            (&supported, requested_channels, requested_sample_rate, buffer_size),
            first,
        ),
        call_ensures(
            CpalBackend::build_input,
            (supported, requested_channels, requested_sample_rate, buffer_size, sink_id),
            build,
        ),
        call_ensures(StreamBuild::config, (&build,), config),
    ensures
        config == first,
        build@.config == first,
        build@.direction == Direction::Input,
        build@.supported == supported,
        !build@.fallback,
        build@.sink_id == sink_id@,
{
}

/// A stream that was spawned is played, with the configuration that it was spawned with.
pub proof fn law_spawned_stream_is_played(
    build: &mut StreamBuild,
    spawned: Result<(), CpalError>,
    r: BuildStep,
)
    requires
        call_ensures(StreamBuild::on_spawned, (build, &spawned), r),
    ensures
        r is Play <==> spawned is Ok,
        spawned is Ok ==> final(build)@ == old(build)@,
{
}

/// Whether a text tells that an input device has too many channels, how many, and what came of trying
/// fewer.
pub open spec fn tells_of_too_many_channels(
    message: Seq<char>,
    channels: u16,
    failure: Seq<char>,
) -> bool {
    exists|needed: Seq<char>, supported: Seq<char>|
        {
            &&& #[trigger] writes_number(needed, channels as int)
            &&& #[trigger] writes_number(supported, 32)
            &&& message == "Input device requires "@ + needed
                + " channels, exceeding the supported maximum of "@ + supported
                + "; building a stream with "@ + supported + " channels failed: "@ + failure
        }
}

/// Where the first configuration fails, the one of the device is tried: its sample rate, the default
/// buffer size, and its channels, of which an output stream takes at most 32. An input stream of more
/// than 32 channels is given up instead.
pub proof fn law_device_s_own_configuration_is_tried_next(
    build: &mut StreamBuild,
    spawned: Result<(), CpalError>,
    r: BuildStep,
)
    requires
        call_ensures(StreamBuild::on_spawned, (build, &spawned), r),
        spawned is Err,
        !(*build)@.fallback,
    ensures
        ({
            let before = old(build)@;
            let after = final(build)@;
            let too_many = before.direction == Direction::Input && before.supported.channels > 32;
            &&& too_many ==> {
                &&& after == before
                &&& r is Failed
                &&& (r->Failed_0)@.kind is NotSupported
                &&& (r->Failed_0)@.operation == "build_input_stream"@
                &&& (r->Failed_0)@.backend == "cpal"@
                &&& tells_of_too_many_channels(
                    (r->Failed_0)@.message,
                    before.supported.channels,
                    spawned->Err_0.text@,
                )
            }
            &&& !too_many ==> {
                &&& r matches BuildStep::Spawn(config) && config == after.config
                &&& after.fallback
                &&& after.config.sample_rate == before.supported.sample_rate
                &&& after.config.buffer_size == BufferSize::Default
                &&& before.supported.channels <= 32 ==> after.config.channels
                    == before.supported.channels
                &&& before.supported.channels > 32 ==> after.config.channels == 32
                &&& after.direction == before.direction
                &&& after.supported == before.supported
                &&& after.sink_id == before.sink_id
            }
        }),
{
    if r is Failed {
        let channels = (*build)@.supported.channels;
        lemma_decimal_writes_number(channels as nat);
        lemma_decimal_writes_number(32);
        assert(writes_number(decimal(channels as nat), channels as int) && writes_number(
            decimal(32),
            32,
        ));
        assert(tells_of_too_many_channels(
            (r->Failed_0)@.message,
            channels,
            spawned->Err_0.text@,
        ));
    }
}

/// A second failure is final, and is told in the words of the device layer.
pub proof fn law_second_failure_is_told(
    build: &mut StreamBuild,
    spawned: Result<(), CpalError>,
    r: BuildStep,
)
    requires
        call_ensures(StreamBuild::on_spawned, (build, &spawned), r),
        spawned is Err,
        (*build)@.fallback,
    ensures
        final(build)@ == old(build)@,
        r is Failed,
        old(build)@.direction is Output ==> tells(
            (r->Failed_0)@,
            "build_fallback_output_stream"@,
            spawned->Err_0,
        ),
        old(build)@.direction is Input ==> tells(
            (r->Failed_0)@,
            "build_fallback_input_stream"@,
            spawned->Err_0,
        ),
{
}

/// A stream that plays gives a backend with an open stream that is not suspended, and which reports
/// the configuration and the sink id of the stream.
pub proof fn law_playing_stream_gives_a_backend(
    build: StreamBuild,
    played: Result<(), CpalError>,
    r: BackendResult<CpalBackend>,
)
    requires
        call_ensures(StreamBuild::on_played, (build, &played), r),
    ensures
        r is Ok <==> played is Ok,
        r matches Ok(backend) ==> {
            &&& backend@.stream_open
            &&& !backend@.suspended
            &&& backend@.sample_rate == build@.config.sample_rate
            &&& backend@.number_of_channels == build@.config.channels
            &&& backend@.sink_id == build@.sink_id
        },
{
}

/// A stream that does not play fails, and that is told in the words of the device layer.
pub proof fn law_stream_that_does_not_play_is_told(
    build: StreamBuild,
    played: Result<(), CpalError>,
    r: BackendResult<CpalBackend>,
)
    requires
        call_ensures(StreamBuild::on_played, (build, &played), r),
        played is Err,
    ensures
        r is Err,
        build@.direction is Output ==> tells(
            (r->Err_0)@,
            "play_output_stream"@,
            played->Err_0,
        ),
        build@.direction is Input ==> tells((r->Err_0)@, "play_input_stream"@, played->Err_0),
{
}

/// A backend tells what it has, and its callback falls silent exactly while it is suspended through
/// the flag.
pub proof fn law_backend_tells_what_it_has(
    backend: CpalBackend,
    sample_rate: u32,
    number_of_channels: usize,
    sink_id: &String,
    action: CallbackAction,
)
    requires
        call_ensures(CpalBackend::sample_rate, (&backend,), sample_rate),
        call_ensures(CpalBackend::number_of_channels, (&backend,), number_of_channels),
        call_ensures(CpalBackend::sink_id, (&backend,), sink_id),
        call_ensures(CpalBackend::callback_action, (&backend,), action),
    ensures
        sample_rate == backend@.sample_rate,
        number_of_channels == backend@.number_of_channels,
        sink_id@ == backend@.sink_id,
        action == CallbackAction::Silence <==> backend@.suspended,
        action == CallbackAction::Render <==> !backend@.suspended,
{
}

/// Closing a backend drops its stream, and nothing else.
pub proof fn law_closed_backend_has_no_stream(backend: &mut CpalBackend)
    requires
        call_ensures(CpalBackend::close, (backend,), ()),
    ensures
        !final(backend)@.stream_open,
        final(backend)@.suspended == old(backend)@.suspended,
        final(backend)@.sample_rate == old(backend)@.sample_rate,
        final(backend)@.number_of_channels == old(backend)@.number_of_channels,
        final(backend)@.sink_id == old(backend)@.sink_id,
{
}

/// Suspending never fails: it succeeds as long as there is a stream. Where the device cannot pause,
/// the flag is raised; where it can, the flag stays as it was.
pub proof fn law_suspending_never_fails<F: FnOnce() -> Result<(), CpalError>>(
    backend: &mut CpalBackend,
    pause: F,
    r: BackendResult<bool>,
)
    requires
        call_ensures(CpalBackend::suspend::<F>, (backend, pause), r),
    ensures
        r matches Ok(done) && done == old(backend)@.stream_open,
        !old(backend)@.stream_open ==> final(backend)@ == old(backend)@,
        old(backend)@.stream_open ==> exists|paused: Result<(), CpalError>|
            {
                &&& #[trigger] call_ensures(pause, (), paused)
                &&& paused is Err ==> final(backend)@.suspended
                &&& paused is Ok ==> final(backend)@.suspended == old(backend)@.suspended
            },
        final(backend)@ == (CpalBackendView {
            suspended: final(backend)@.suspended,
            ..old(backend)@
        }),
{
    if (*backend)@.stream_open {
        let paused = choose|paused: Result<(), CpalError>|
            #[trigger] call_ensures(pause, (), paused) && final(backend)@ == (*backend)@.paused(
                paused,
            );
        assert(call_ensures(pause, (), paused));
    }
}

/// Resuming lowers the flag. Without a stream it does nothing more; with one it succeeds if the
/// stream plays, or if only the flag had kept it silent; otherwise the failure is told.
pub proof fn law_resuming_lowers_the_flag<F: FnOnce() -> Result<(), CpalError>>(
    backend: &mut CpalBackend,
    play: F,
    r: BackendResult<bool>,
)
    requires
        call_ensures(CpalBackend::resume::<F>, (backend, play), r),
    ensures
        !final(backend)@.suspended,
        final(backend)@ == (CpalBackendView { suspended: false, ..old(backend)@ }),
        !old(backend)@.stream_open ==> (r matches Ok(done) && !done),
        old(backend)@.stream_open ==> exists|played: Result<(), CpalError>|
            {
                &&& #[trigger] call_ensures(play, (), played)
                &&& played is Ok || old(backend)@.suspended ==> (r matches Ok(done) && done)
                &&& played is Err && !old(backend)@.suspended ==> {
                    &&& r is Err
                    &&& tells((r->Err_0)@, "resume"@, played->Err_0)
                }
            },
{
    assert(result_view(r) is Ok <==> r is Ok);
    if (*backend)@.stream_open {
        let played = choose|played: Result<(), CpalError>|
            #[trigger] call_ensures(play, (), played) && result_view(r) == (*backend)@.resumed(
                played,
            );
        assert(call_ensures(play, (), played));
    }
}

/// A stream is built in any format that can be rendered, and only in those; the failure names the
/// configuration as the reason.
pub proof fn law_streams_are_built_in_rendered_formats<
    S,
    B: FnOnce(SampleFormat) -> Result<S, CpalError>,
>(
    format: SampleFormat,
    words: &str,
    build: B,
    output: Result<S, CpalError>,
    input: Result<S, CpalError>,
)
    requires
        call_ensures(spawn_output_stream::<S, B>, (format, words, build), output),
        call_ensures(spawn_input_stream::<S, B>, (format, words, build), input),
    ensures
        !(format is Other) ==> call_ensures(build, (format,), output) && call_ensures(
            build,
            (format,),
            input,
        ),
        format is Other ==> {
            &&& output matches Err(e) && e.kind is UnsupportedConfig && e.text@ == words@
            &&& input matches Err(e) && e.kind is UnsupportedConfig && e.text@ == words@
        },
{
}

/// Whether an error tells what the device layer has reported: in its words, under the operation that
/// failed. Only a device that is not available, an unsupported configuration or operation, and an
/// invalid input are told apart from all other errors.
pub open spec fn tells(e: BackendErrorView, operation: Seq<char>, err: CpalError) -> bool {
    &&& e.message == err.text@
    &&& e.operation == operation
    &&& e.backend == "cpal"@
    &&& e.kind is DeviceUnavailable <==> err.kind is DeviceNotAvailable
    &&& e.kind is NotSupported <==> err.kind is UnsupportedConfig || err.kind is UnsupportedOperation
    &&& e.kind is InvalidArgument <==> err.kind is InvalidInput
}

/// An error of the device layer is told as it is.
pub proof fn law_errors_of_the_device_layer_are_told(
    operation: &'static str,
    err: CpalError,
    r: AudioBackendError,
)
    requires
        call_ensures(map_cpal_error, (operation, &err), r),
    ensures
        tells(r@, operation@, err),
{
}

/// An error is made of the parts that it was given.
pub proof fn law_errors_are_made_of_their_parts(
    kind: AudioBackendErrorKind,
    backend: &'static str,
    operation: &'static str,
    message: String,
    r: AudioBackendError,
    mapped: AudioBackendError,
    text: &'static str,
    unavailable: AudioBackendError,
)
    requires
        call_ensures(AudioBackendError::new, (kind, backend, operation, message), r),
        call_ensures(map_cpal_backend_error, (kind, operation, &message), mapped),
        call_ensures(device_unavailable, (operation, text), unavailable),
    ensures
        r@.kind == kind && r@.backend == backend@ && r@.operation == operation@ && r@.message
            == message@,
        mapped@.kind == kind && mapped@.backend == "cpal"@ && mapped@.operation == operation@
            && mapped@.message == message@,
        unavailable@.kind is DeviceUnavailable && unavailable@.backend == "cpal"@
            && unavailable@.operation == operation@ && unavailable@.message == text@,
{
}

/// The first of the preferred hosts that has devices is picked, and the default one only if none of
/// them has any.
pub proof fn law_first_host_with_devices_is_picked(preferred: Vec<HostProbe>, r: Option<usize>)
    requires
        call_ensures(get_host, (&preferred,), r),
    ensures
        r matches Some(i) ==> i < preferred@.len() && preferred@[i as int] is Devices
            && preferred@[i as int]->0 > 0,
        forall|j: int|
            0 <= j < preferred@.len() && (r is Some ==> j < r->0) ==> !((
            #[trigger] preferred@[j]) is Devices && preferred@[j]->0 > 0),
{
    let args = (&preferred,);
    assert(args.0@ == preferred@);
    assert forall|j: int| 0 <= j < preferred@.len() && (r is Some ==> j < r->0) implies !((
    #[trigger] preferred@[j]) is Devices && preferred@[j]->0 > 0) by {
        assert(!usable_host(args.0@[j]));
    }
}

/// A host is preferred exactly if it could be opened and has devices.
pub proof fn law_host_without_devices_is_not_preferred(probe: HostProbe, r: bool)
    requires
        call_ensures(preferred_host, (probe,), r),
    ensures
        r <==> (probe matches HostProbe::Devices(n) && n > 0),
{
}

/// The device that was selected is used with its default configuration, as it tells it. What it
/// cannot tell is a failure: first its name, then its configuration.
pub proof fn law_selected_device_tells_its_configuration(
    direction: Direction,
    description: Result<DeviceDescription, CpalError>,
    config: Result<SupportedStreamConfig, CpalError>,
    r: BackendResult<SupportedStreamConfig>,
)
    requires
        call_ensures(inspect_device, (direction, &description, &config), r),
    ensures
        r is Ok <==> description is Ok && config is Ok,
        r matches Ok(supported) ==> supported == config->Ok_0,
        description matches Err(e) ==> tells(
            (r->Err_0)@,
            if direction is Output {
                "output_device_name"@
            } else {
                "input_device_name"@
            },
            e,
        ),
        description is Ok && config is Err ==> tells(
            (r->Err_0)@,
            if direction is Output {
                "default_output_config"@
            } else {
                "default_input_config"@
            },
            config->Err_0,
        ),
{
    assert(result_view(r) is Ok <==> r is Ok);
}

} // verus!
