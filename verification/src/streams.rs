//! Audio streams to and from devices: their configuration, how they are set up, and how they are
//! suspended and resumed.

use vstd::prelude::*;
use vstd::string::*;
use crate::backend::{
    AudioBackendError, AudioBackendErrorKind, BackendErrorView, BackendResult, CpalError,
    CpalErrorKind, device_unavailable, map_cpal_error, mapped_error, unavailable_error,
};
use crate::devices::{
    DeviceDescription, HostFacts, MediaDeviceInfo, MediaDeviceInfoView, cpal_device_for_id,
    device_for_id, enumerate_devices, enumeration, info_views, result_view,
};
use crate::media_devices::MediaDeviceInfoKind;
use crate::node::MAX_CHANNELS;
use crate::text::{append_decimal, decimal};

verus! {

/// Whether audio goes to a device or comes from it.
#[derive(Clone, Copy, Debug, PartialEq, Eq, Structural)]
pub enum Direction {
    Output,
    Input,
}

/// Identifies the type of playback, which affects tradeoffs between audio output latency and power
/// consumption.
#[derive(Clone, Copy, Debug, PartialEq, Eq, Structural)]
pub enum AudioContextLatencyCategory {
    /// Balance audio output latency and power consumption
    Balanced,
    /// Provide the lowest audio output latency possible without glitching
    Interactive,
    /// Prioritize sustained playback without interruption over latency
    Playback,
    /// A latency in seconds
    Custom,
}

/// The formats of samples in a stream.
#[derive(Clone, Copy, Debug, PartialEq, Eq, Structural)]
pub enum SampleFormat {
    I8,
    I16,
    I32,
    I64,
    U8,
    U16,
    U32,
    U64,
    F32,
    F64,
    /// packed integers and other formats that are not rendered
    Other,
}

/// The buffer sizes that a device supports.
#[derive(Clone, Copy, Debug, PartialEq, Eq, Structural)]
pub enum SupportedBufferSize {
    Range { min: u32, max: u32 },
    Unknown,
}

/// The buffer size of a stream.
#[derive(Clone, Copy, Debug, PartialEq, Eq, Structural)]
pub enum BufferSize {
    Default,
    Fixed(u32),
}

/// The configuration of a stream.
#[derive(Clone, Copy, Debug, PartialEq, Eq, Structural)]
pub struct StreamConfig {
    pub channels: u16,
    pub sample_rate: u32,
    pub buffer_size: BufferSize,
}

/// The default configuration of a device.
#[derive(Clone, Copy, Debug, PartialEq, Eq, Structural)]
pub struct SupportedStreamConfig {
    pub channels: u16,
    pub sample_rate: u32,
    pub buffer_size: SupportedBufferSize,
    pub sample_format: SampleFormat,
}

/// The smaller one of a channel count and the largest count that is supported.
pub open spec fn at_most_max_channels(channels: u16) -> u16 {
    if channels <= MAX_CHANNELS {
        channels
    } else {
        MAX_CHANNELS as u16
    }
}

/// Whether a device knows its buffer sizes, and if so names a range that is not empty.
pub open spec fn sound_buffer_sizes(supported: SupportedBufferSize) -> bool {
    match supported {
        SupportedBufferSize::Unknown => true,
        SupportedBufferSize::Range { min, max } => min <= max,
    }
}

/// The size nearest to `wanted` that a device supports.
pub open spec fn clamped_size(wanted: u32, supported: SupportedBufferSize) -> u32 {
    match supported {
        SupportedBufferSize::Unknown => wanted,
        SupportedBufferSize::Range { min, max } => if wanted < min {
            min
        } else if wanted > max {
            max
        } else {
            wanted
        },
    }
}

/// The sample rate that was asked for, or else the one of the device.
pub open spec fn picked_sample_rate(supported: SupportedStreamConfig, requested: Option<u32>) -> u32 {
    match requested {
        Some(sample_rate) => sample_rate,
        None => supported.sample_rate,
    }
}

/// The configuration that an output stream is first tried with.
pub open spec fn output_config(
    supported: SupportedStreamConfig,
    requested_sample_rate: Option<u32>,
    buffer_size: u32,
    latency_hint: AudioContextLatencyCategory,
    android: bool,
) -> StreamConfig {
    StreamConfig {
        channels: at_most_max_channels(supported.channels),
        sample_rate: picked_sample_rate(supported, requested_sample_rate),
        buffer_size: if android && (latency_hint == AudioContextLatencyCategory::Balanced
            || latency_hint == AudioContextLatencyCategory::Interactive) {
            BufferSize::Default
        } else {
            BufferSize::Fixed(clamped_size(buffer_size, supported.buffer_size))
        },
    }
}

/// The configuration that an input stream is first tried with. It has the requested number of
/// channels, but no more than the device has and no more than are supported. Of the requested number
/// the low 16 bits count.
pub open spec fn input_config(
    supported: SupportedStreamConfig,
    requested_channels: Option<u32>,
    requested_sample_rate: Option<u32>,
    buffer_size: u32,
) -> StreamConfig {
    let available = match requested_channels {
        Some(n) => if n % 65536 < supported.channels {
            (n % 65536) as u16
        } else {
            supported.channels
        },
        None => supported.channels,
    };
    StreamConfig {
        channels: at_most_max_channels(available),
        sample_rate: picked_sample_rate(supported, requested_sample_rate),
        buffer_size: BufferSize::Fixed(clamped_size(buffer_size, supported.buffer_size)),
    }
}

/// The configuration that a stream is tried with when the first one failed: the one of the device.
pub open spec fn fallback_config(direction: Direction, supported: SupportedStreamConfig) -> StreamConfig {
    StreamConfig {
        channels: match direction {
            Direction::Output => at_most_max_channels(supported.channels),
            Direction::Input => supported.channels,
        },
        sample_rate: supported.sample_rate,
        buffer_size: BufferSize::Default,
    }
}

/// Limits a channel count to the largest one that is supported.
fn limit_channels(channels: u16) -> (r: u16)
    ensures
        r == at_most_max_channels(channels),
{
    if channels as usize <= MAX_CHANNELS {
        channels
    } else {
        MAX_CHANNELS as u16
    }
}

/// Clamps a buffer size to what a device supports.
pub fn clamped_buffer_size(buffer_size: u32, supported: SupportedBufferSize) -> (r: u32)
    requires
        sound_buffer_sizes(supported),
    ensures
        r == clamped_size(buffer_size, supported),
{
    match supported {
        SupportedBufferSize::Unknown => buffer_size,
        SupportedBufferSize::Range { min, max } => if buffer_size < min {
            min
        } else if buffer_size > max {
            max
        } else {
            buffer_size
        },
    }
}

/// Picks the sample rate of a stream, from which its buffer size follows.
pub fn preferred_sample_rate(supported: &SupportedStreamConfig, requested: Option<u32>) -> (r: u32)
    ensures
        r == picked_sample_rate(*supported, requested),
{
    match requested {
        Some(sample_rate) => sample_rate,
        None => supported.sample_rate,
    }
}

/// Overrides the default configuration of an output device with the options provided by the user.
///
/// It grabs the largest number of channels provided by the soundcard, clamped to the maximum, and
/// always tries to set a decent buffer size. On android the detected range for the buffer size
/// seems to be too big: small latencies use the default size there.
pub fn preferred_output_config(
    supported: &SupportedStreamConfig,
    requested_sample_rate: Option<u32>,
    buffer_size: u32,
    latency_hint: AudioContextLatencyCategory,
    android: bool,
) -> (r: StreamConfig)
    requires
        sound_buffer_sizes(supported.buffer_size),
    ensures
        r == output_config(
            *supported,
            requested_sample_rate,
            buffer_size,
            latency_hint,
            android,
        ),
{
    let mut buffer_size = BufferSize::Fixed(
        clamped_buffer_size(buffer_size, supported.buffer_size),
    );
    if android {
        match latency_hint {
            AudioContextLatencyCategory::Balanced => {
                buffer_size = BufferSize::Default;
            },
            AudioContextLatencyCategory::Interactive => {
                buffer_size = BufferSize::Default;
            },
            _ => {},
        }
    }
    StreamConfig {
        channels: limit_channels(supported.channels),
        sample_rate: preferred_sample_rate(supported, requested_sample_rate),
        buffer_size,
    }
}

/// Overrides the default configuration of an input device with the options provided by the user,
/// without asking for more channels than available.
pub fn preferred_input_config(
    supported: &SupportedStreamConfig,
    requested_channels: Option<u32>,
    requested_sample_rate: Option<u32>,
    buffer_size: u32,
) -> (r: StreamConfig)
    requires
        sound_buffer_sizes(supported.buffer_size),
    ensures
        r == input_config(*supported, requested_channels, requested_sample_rate, buffer_size),
{
    let mut channels: u16 = supported.channels;
    if let Some(n) = requested_channels {
        let requested: u16 = (n % 65536) as u16;
        if requested < channels {
            channels = requested;
        }
    }
    StreamConfig {
        channels: limit_channels(channels),
        sample_rate: preferred_sample_rate(supported, requested_sample_rate),
        buffer_size: BufferSize::Fixed(clamped_buffer_size(buffer_size, supported.buffer_size)),
    }
}

/// Whether samples of a format can be rendered.
pub open spec fn is_rendered(format: SampleFormat) -> bool {
    format != SampleFormat::Other
}

/// The failure to spawn a stream for samples that cannot be rendered, told in the given words.
pub open spec fn is_unsupported_config(err: CpalError, words: Seq<char>) -> bool {
    &&& err.kind == CpalErrorKind::UnsupportedConfig
    &&& err.text@ == words
}

/// Spawns a stream for samples of a format that can be rendered; `build` builds it. `unsupported` is
/// what the audio host says of a configuration that is not supported.
fn spawn_stream<S, B: FnOnce(SampleFormat) -> Result<S, CpalError>>(
    sample_format: SampleFormat,
    unsupported: &str,
    build: B,
) -> (r: Result<S, CpalError>)
    requires
        is_rendered(sample_format) ==> call_requires(build, (sample_format,)),
    ensures
        is_rendered(sample_format) ==> call_ensures(build, (sample_format,), r),
        !is_rendered(sample_format) ==> (r matches Err(e) && is_unsupported_config(e, unsupported@)),
{
    match sample_format {
        SampleFormat::Other => Err(
            CpalError {
                kind: CpalErrorKind::UnsupportedConfig,
                text: unsupported.to_owned(),
            },
        ),
        _ => build(sample_format),
    }
}

/// Creates an output stream.
///
/// # Arguments:
///
/// * `sample_format` - audio sample format of the stream
/// * `unsupported` - what the audio host says of a configuration that is not supported
/// * `build` - builds a stream whose callback does what [`CpalBackend::callback_action`] says
pub fn spawn_output_stream<S, B: FnOnce(SampleFormat) -> Result<S, CpalError>>(
    sample_format: SampleFormat,
    unsupported: &str,
    build: B,
) -> (r: Result<S, CpalError>)
    requires
        is_rendered(sample_format) ==> call_requires(build, (sample_format,)),
    ensures
        is_rendered(sample_format) ==> call_ensures(build, (sample_format,), r),
        !is_rendered(sample_format) ==> (r matches Err(e) && is_unsupported_config(e, unsupported@)),
{
    spawn_stream(sample_format, unsupported, build)
}

/// Creates an input stream.
///
/// # Arguments:
///
/// * `sample_format` - audio sample format of the stream
/// * `unsupported` - what the audio host says of a configuration that is not supported
/// * `build` - builds a stream whose callback hands all samples on
pub fn spawn_input_stream<S, B: FnOnce(SampleFormat) -> Result<S, CpalError>>(
    sample_format: SampleFormat,
    unsupported: &str,
    build: B,
) -> (r: Result<S, CpalError>)
    requires
        is_rendered(sample_format) ==> call_requires(build, (sample_format,)),
    ensures
        is_rendered(sample_format) ==> call_ensures(build, (sample_format,), r),
        !is_rendered(sample_format) ==> (r matches Err(e) && is_unsupported_config(e, unsupported@)),
{
    spawn_stream(sample_format, unsupported, build)
}

/// Which device a stream uses.
#[derive(Clone, Copy, Debug, PartialEq, Eq, Structural)]
pub enum DeviceChoice {
    /// the default device of the host
    Default,
    /// the device at that position of the enumeration
    Enumerated(usize),
}

/// What devices of a direction are for.
pub open spec fn kind_of(direction: Direction) -> MediaDeviceInfoKind {
    match direction {
        Direction::Output => MediaDeviceInfoKind::AudioOutput,
        Direction::Input => MediaDeviceInfoKind::AudioInput,
    }
}

/// The failure to get hold of a device.
pub open spec fn no_device(direction: Direction, by_id: bool) -> BackendErrorView {
    match direction {
        Direction::Output => unavailable_error(
            if by_id {
                "select_output_device"@
            } else {
                "default_output_device"@
            },
            "No output device available"@,
        ),
        Direction::Input => unavailable_error(
            if by_id {
                "select_input_device"@
            } else {
                "default_input_device"@
            },
            "No input device available"@,
        ),
    }
}

/// The device that an id selects. The empty id stands for the default device, which also steps in
/// where no device has the id.
pub open spec fn selected_device(
    direction: Direction,
    host: HostFacts,
    sink_id: Seq<char>,
    has_default: bool,
) -> Result<DeviceChoice, BackendErrorView> {
    if sink_id.len() == 0 {
        if has_default {
            Ok(DeviceChoice::Default)
        } else {
            Err(no_device(direction, false))
        }
    } else {
        match device_for_id(host, kind_of(direction), sink_id) {
            Err(e) => Err(e),
            Ok(Some(i)) => Ok(DeviceChoice::Enumerated(i)),
            Ok(None) => if has_default {
                Ok(DeviceChoice::Default)
            } else {
                Err(no_device(direction, true))
            },
        }
    }
}

/// Selects the device for a stream.
pub fn select_device(direction: Direction, host: &HostFacts, sink_id: &String, has_default: bool) -> (r:
    BackendResult<DeviceChoice>)
    ensures
        result_view(r) == selected_device(direction, *host, sink_id@, has_default),
{
    if sink_id.as_str().is_empty() {
        if has_default {
            return Ok(DeviceChoice::Default);
        }
        return Err(
            match direction {
                Direction::Output => device_unavailable(
                    "default_output_device",
                    "No output device available",
                ),
                Direction::Input => device_unavailable(
                    "default_input_device",
                    "No input device available",
                ),
            },
        );
    }
    let kind = match direction {
        Direction::Output => MediaDeviceInfoKind::AudioOutput,
        Direction::Input => MediaDeviceInfoKind::AudioInput,
    };
    match cpal_device_for_id(host, kind, sink_id) {
        Err(e) => Err(e),
        Ok(Some(i)) => Ok(DeviceChoice::Enumerated(i)),
        Ok(None) => if has_default {
            Ok(DeviceChoice::Default)
        } else {
            Err(
                match direction {
                    Direction::Output => device_unavailable(
                        "select_output_device",
                        "No output device available",
                    ),
                    Direction::Input => device_unavailable(
                        "select_input_device",
                        "No input device available",
                    ),
                },
            )
        },
    }
}

/// What the selected device has to tell before a stream can be set up.
pub open spec fn inspected_device(
    direction: Direction,
    description: Result<DeviceDescription, CpalError>,
    config: Result<SupportedStreamConfig, CpalError>,
) -> Result<SupportedStreamConfig, BackendErrorView> {
    match description {
        Err(e) => Err(
            mapped_error(
                match direction {
                    Direction::Output => "output_device_name"@,
                    Direction::Input => "input_device_name"@,
                },
                e,
            ),
        ),
        Ok(_) => match config {
            Err(e) => Err(
                mapped_error(
                    match direction {
                        Direction::Output => "default_output_config"@,
                        Direction::Input => "default_input_config"@,
                    },
                    e,
                ),
            ),
            Ok(supported) => Ok(supported),
        },
    }
}

/// Inspects the selected device: its description, and then its default configuration.
pub fn inspect_device(
    direction: Direction,
    description: &Result<DeviceDescription, CpalError>,
    config: &Result<SupportedStreamConfig, CpalError>,
) -> (r: BackendResult<SupportedStreamConfig>)
    ensures
        result_view(r) == inspected_device(direction, *description, *config),
{
    match description {
        Err(e) => {
            return Err(
                match direction {
                    Direction::Output => map_cpal_error("output_device_name", e),
                    Direction::Input => map_cpal_error("input_device_name", e),
                },
            );
        },
        Ok(_) => {},
    }
    match config {
        Err(e) => Err(
            match direction {
                Direction::Output => map_cpal_error("default_output_config", e),
                Direction::Input => map_cpal_error("default_input_config", e),
            },
        ),
        Ok(supported) => Ok(*supported),
    }
}

/// The failure of an input stream whose device has too many channels to fall back on.
pub open spec fn too_many_channels(channels: u16, err: CpalError) -> BackendErrorView {
    BackendErrorView {
        kind: AudioBackendErrorKind::NotSupported,
        backend: "cpal"@,
        operation: "build_input_stream"@,
        message: "Input device requires "@ + decimal(channels as nat)
            + " channels, exceeding the supported maximum of "@ + decimal(MAX_CHANNELS as nat)
            + "; building a stream with "@ + decimal(MAX_CHANNELS as nat) + " channels failed: "@
            + err.text@,
    }
}

/// Writes the failure of an input stream whose device has too many channels to fall back on.
fn too_many_channels_error(channels: u16, err: &CpalError) -> (r: AudioBackendError)
    ensures
        r@ == too_many_channels(channels, *err),
{
    let mut message = String::new();
    message.append("Input device requires ");
    append_decimal(&mut message, channels as usize);
    message.append(" channels, exceeding the supported maximum of ");
    append_decimal(&mut message, MAX_CHANNELS);
    message.append("; building a stream with ");
    append_decimal(&mut message, MAX_CHANNELS);
    message.append(" channels failed: ");
    message.append(err.text.as_str());
    assert(message@ =~= too_many_channels(channels, *err).message);
    AudioBackendError::new(
        AudioBackendErrorKind::NotSupported,
        "cpal",
        "build_input_stream",
        message,
    )
}

/// A stream that is being set up.
#[derive(Debug)]
pub struct StreamBuild {
    direction: Direction,
    supported: SupportedStreamConfig,
    config: StreamConfig,
    fallback: bool,
    sink_id: String,
}

/// A stream that is being set up, as contracts speak of it.
#[verifier::ext_equal]
pub struct StreamBuildView {
    pub direction: Direction,
    /// the default configuration of the device
    pub supported: SupportedStreamConfig,
    /// the configuration that the stream is tried with
    pub config: StreamConfig,
    /// whether that is the second attempt
    pub fallback: bool,
    pub sink_id: Seq<char>,
}

impl View for StreamBuild {
    type V = StreamBuildView;

    closed spec fn view(&self) -> StreamBuildView {
        StreamBuildView {
            direction: self.direction,
            supported: self.supported,
            config: self.config,
            fallback: self.fallback,
            sink_id: self.sink_id@,
        }
    }
}

/// What to do next to set up a stream.
#[derive(Debug)]
pub enum BuildStep {
    /// spawn a stream with this configuration
    Spawn(StreamConfig),
    /// play the stream; some hosts don't do that automatically
    Play,
    /// give up
    Failed(AudioBackendError),
}

/// What to do next to set up a stream, as contracts speak of it.
#[verifier::ext_equal]
pub enum BuildStepView {
    Spawn(StreamConfig),
    Play,
    Failed(BackendErrorView),
}

impl View for BuildStep {
    type V = BuildStepView;

    open spec fn view(&self) -> BuildStepView {
        match *self {
            BuildStep::Spawn(config) => BuildStepView::Spawn(config),
            BuildStep::Play => BuildStepView::Play,
            BuildStep::Failed(e) => BuildStepView::Failed(e@),
        }
    }
}

impl StreamBuildView {
    /// What follows an attempt to spawn the stream. The configuration that was asked for may not be
    /// supported: in that case, the default one of the device is tried, unless that would be an
    /// input stream with too many channels.
    pub open spec fn spawned(self, spawned: Result<(), CpalError>) -> (Self, BuildStepView) {
        match spawned {
            Ok(_) => (self, BuildStepView::Play),
            Err(e) => if self.fallback {
                let operation = match self.direction {
                    Direction::Output => "build_fallback_output_stream"@,
                    Direction::Input => "build_fallback_input_stream"@,
                };
                (self, BuildStepView::Failed(mapped_error(operation, e)))
            } else if self.direction == Direction::Input && self.supported.channels > MAX_CHANNELS {
                (self, BuildStepView::Failed(too_many_channels(self.supported.channels, e)))
            } else {
                let config = fallback_config(self.direction, self.supported);
                (StreamBuildView { config, fallback: true, ..self }, BuildStepView::Spawn(config))
            },
        }
    }

    /// What comes of playing the stream.
    pub open spec fn played(self, played: Result<(), CpalError>) -> Result<
        CpalBackendView,
        BackendErrorView,
    > {
        match played {
            Ok(_) => Ok(
                CpalBackendView {
                    stream_open: true,
                    suspended: false,
                    sample_rate: self.config.sample_rate,
                    number_of_channels: self.config.channels as usize,
                    sink_id: self.sink_id,
                },
            ),
            Err(e) => {
                let operation = match self.direction {
                    Direction::Output => "play_output_stream"@,
                    Direction::Input => "play_input_stream"@,
                };
                Err(mapped_error(operation, e))
            },
        }
    }
}

impl StreamBuild {
    /// The configuration that the stream is tried with.
    pub fn config(&self) -> (r: StreamConfig)
        ensures
            r == self@.config,
    {
        self.config
    }

    /// Decides what to do after an attempt to spawn the stream.
    pub fn on_spawned(&mut self, spawned: &Result<(), CpalError>) -> (r: BuildStep)
        ensures
            (final(self)@, r@) == old(self)@.spawned(*spawned),
    {
        match spawned {
            Ok(_) => BuildStep::Play,
            Err(e) => {
                if self.fallback {
                    return BuildStep::Failed(
                        match self.direction {
                            Direction::Output => map_cpal_error("build_fallback_output_stream", e),
                            Direction::Input => map_cpal_error("build_fallback_input_stream", e),
                        },
                    );
                }
                let channels: u16 = match self.direction {
                    Direction::Output => limit_channels(self.supported.channels),
                    Direction::Input => {
                        if self.supported.channels as usize > MAX_CHANNELS {
                            return BuildStep::Failed(
                                too_many_channels_error(self.supported.channels, e),
                            );
                        }
                        self.supported.channels
                    },
                };
                self.config = StreamConfig {
                    channels,
                    sample_rate: self.supported.sample_rate,
                    buffer_size: BufferSize::Default,
                };
                self.fallback = true;
                BuildStep::Spawn(self.config)
            },
        }
    }

    /// Decides what comes of playing the stream.
    pub fn on_played(self, played: &Result<(), CpalError>) -> (r: BackendResult<CpalBackend>)
        ensures
            match r {
                Ok(backend) => self@.played(*played) == Ok::<_, BackendErrorView>(backend@),
                Err(e) => self@.played(*played) == Err::<CpalBackendView, _>(e@),
            },
    {
        match played {
            Ok(_) => Ok(
                CpalBackend {
                    stream_open: true,
                    suspended: false,
                    sample_rate: self.config.sample_rate,
                    number_of_channels: self.config.channels as usize,
                    sink_id: self.sink_id,
                },
            ),
            Err(e) => Err(
                match self.direction {
                    Direction::Output => map_cpal_error("play_output_stream", e),
                    Direction::Input => map_cpal_error("play_input_stream", e),
                },
            ),
        }
    }
}

/// Audio backend with a stream to or from a device.
#[derive(Debug)]
pub struct CpalBackend {
    stream_open: bool,
    /// Pausing a stream is an optional feature of the hardware. Where it fails, suspension falls
    /// back to this flag: the output callback emits silence and does not invoke the renderer, so
    /// that the rendering clock stops.
    suspended: bool,
    sample_rate: u32,
    number_of_channels: usize,
    sink_id: String,
}

/// An audio backend, as contracts speak of it.
#[verifier::ext_equal]
pub struct CpalBackendView {
    pub stream_open: bool,
    pub suspended: bool,
    pub sample_rate: u32,
    pub number_of_channels: usize,
    pub sink_id: Seq<char>,
}

impl View for CpalBackend {
    type V = CpalBackendView;

    closed spec fn view(&self) -> CpalBackendView {
        CpalBackendView {
            stream_open: self.stream_open,
            suspended: self.suspended,
            sample_rate: self.sample_rate,
            number_of_channels: self.number_of_channels,
            sink_id: self.sink_id@,
        }
    }
}

/// What an output callback does.
#[derive(Clone, Copy, Debug, PartialEq, Eq, Structural)]
pub enum CallbackAction {
    /// fill the buffer with silence, without advancing the renderer
    Silence,
    /// render the buffer
    Render,
}

impl CpalBackendView {
    /// What comes of resuming, given what came of playing the stream. A stream that was suspended
    /// through the flag never stopped, so that a failure to play it is inconsequential.
    pub open spec fn resumed(self, played: Result<(), CpalError>) -> Result<bool, BackendErrorView> {
        match played {
            Ok(_) => Ok(true),
            Err(e) => if self.suspended {
                Ok(true)
            } else {
                Err(mapped_error("resume"@, e))
            },
        }
    }

    /// The backend, suspended. Where the stream cannot be paused, the flag steps in.
    pub open spec fn paused(self, paused: Result<(), CpalError>) -> Self {
        CpalBackendView { suspended: self.suspended || paused is Err, ..self }
    }

    /// What an output callback does.
    pub open spec fn callback_action(self) -> CallbackAction {
        if self.suspended {
            CallbackAction::Silence
        } else {
            CallbackAction::Render
        }
    }
}

impl CpalBackend {
    /// Starts to set up an output stream: with the preferred configuration.
    pub fn build_output(
        supported: SupportedStreamConfig,
        requested_sample_rate: Option<u32>,
        buffer_size: u32,
        latency_hint: AudioContextLatencyCategory,
        android: bool,
        sink_id: String,
    ) -> (r: StreamBuild)
        requires
            sound_buffer_sizes(supported.buffer_size),
        ensures
            r@ == (StreamBuildView {
                direction: Direction::Output,
                supported,
                config: output_config(
                    supported,
                    requested_sample_rate,
                    buffer_size,
                    latency_hint,
                    android,
                ),
                fallback: false,
                sink_id: sink_id@,
            }),
    {
        StreamBuild {
            direction: Direction::Output,
            supported,
            config: preferred_output_config(
                &supported,
                requested_sample_rate,
                buffer_size,
                latency_hint,
                android,
            ),
            fallback: false,
            sink_id,
        }
    }

    /// Starts to set up an input stream: with the preferred configuration.
    pub fn build_input(
        supported: SupportedStreamConfig,
        requested_channels: Option<u32>,
        requested_sample_rate: Option<u32>,
        buffer_size: u32,
        sink_id: String,
    ) -> (r: StreamBuild)
        requires
            sound_buffer_sizes(supported.buffer_size),
        ensures
            r@ == (StreamBuildView {
                direction: Direction::Input,
                supported,
                config: input_config(
                    supported,
                    requested_channels,
                    requested_sample_rate,
                    buffer_size,
                ),
                fallback: false,
                sink_id: sink_id@,
            }),
    {
        StreamBuild {
            direction: Direction::Input,
            supported,
            config: preferred_input_config(
                &supported,
                requested_channels,
                requested_sample_rate,
                buffer_size,
            ),
            fallback: false,
            sink_id,
        }
    }

    /// Resumes the audio backend; `play` plays the stream. Returns false if there is no stream any
    /// more.
    pub fn resume<F: FnOnce() -> Result<(), CpalError>>(&mut self, play: F) -> (r: BackendResult<bool>)
        requires
            old(self)@.stream_open ==> call_requires(play, ()),
        ensures
            final(self)@ == (CpalBackendView { suspended: false, ..old(self)@ }),
            if old(self)@.stream_open {
                exists|played: Result<(), CpalError>|
                    #[trigger] call_ensures(play, (), played) && result_view(r) == old(
                        self,
                    )@.resumed(played)
            } else {
                result_view(r) == Ok::<bool, BackendErrorView>(false)
            },
    {
        let was_flag = self.suspended;
        self.suspended = false;
        if self.stream_open {
            let played = play();
            assert(call_ensures(play, (), played));
            return match &played {
                Ok(_) => Ok(true),
                Err(e) => if was_flag {
                    Ok(true)
                } else {
                    Err(map_cpal_error("resume", e))
                },
            };
        }
        Ok(false)
    }

    /// Suspends the audio backend; `pause` pauses the stream. Returns false if there is no stream
    /// any more.
    pub fn suspend<F: FnOnce() -> Result<(), CpalError>>(&mut self, pause: F) -> (r: BackendResult<bool>)
        requires
            old(self)@.stream_open ==> call_requires(pause, ()),
        ensures
            if old(self)@.stream_open {
                exists|paused: Result<(), CpalError>|
                    #[trigger] call_ensures(pause, (), paused) && final(self)@ == old(self)@.paused(
                        paused,
                    )
            } else {
                final(self)@ == old(self)@
            },
            result_view(r) == Ok::<bool, BackendErrorView>(old(self)@.stream_open),
    {
        if self.stream_open {
            let paused = pause();
            assert(call_ensures(pause, (), paused));
            match &paused {
                Ok(_) => {},
                Err(_) => {
                    self.suspended = true;
                },
            }
            return Ok(true);
        }
        Ok(false)
    }

    /// Stops the audio stream and cleans up.
    pub fn close(&mut self)
        ensures
            final(self)@ == (CpalBackendView { stream_open: false, ..old(self)@ }),
    {
        self.stream_open = false;
    }

    /// Decides what an output callback does.
    pub fn callback_action(&self) -> (r: CallbackAction)
        ensures
            r == self@.callback_action(),
    {
        if self.suspended {
            CallbackAction::Silence
        } else {
            CallbackAction::Render
        }
    }

    /// Sample rate of the stream.
    pub fn sample_rate(&self) -> (r: u32)
        ensures
            r == self@.sample_rate,
    {
        self.sample_rate
    }

    /// Number of channels of the stream.
    pub fn number_of_channels(&self) -> (r: usize)
        ensures
            r == self@.number_of_channels,
    {
        self.number_of_channels
    }

    /// The id of the audio sink that was asked for.
    pub fn sink_id(&self) -> (r: &String)
        ensures
            r@ == self@.sink_id,
    {
        &self.sink_id
    }

    /// Short-circuiting existence check for the id of an output device.
    pub fn output_sink_id_exists(host: &HostFacts, sink_id: &String) -> (r: BackendResult<bool>)
        ensures
            result_view(r) == match device_for_id(
                *host,
                MediaDeviceInfoKind::AudioOutput,
                sink_id@,
            ) {
                Ok(found) => Ok::<bool, BackendErrorView>(found is Some),
                Err(e) => Err::<bool, BackendErrorView>(e),
            },
    {
        match cpal_device_for_id(host, MediaDeviceInfoKind::AudioOutput, sink_id) {
            Ok(found) => Ok(found.is_some()),
            Err(e) => Err(e),
        }
    }

    /// Describes all devices of a host that are offered.
    pub fn enumerate_devices_sync(host: &HostFacts) -> (r: BackendResult<Vec<MediaDeviceInfo>>)
        ensures
            match r {
                Ok(infos) => enumeration(*host) == Ok::<_, BackendErrorView>(info_views(infos@)),
                Err(e) => enumeration(*host) == Err::<Seq<MediaDeviceInfoView>, _>(e@),
            },
    {
        enumerate_devices(host)
    }
}

} // verus!
