use web_audio_control::backend::{AudioBackendErrorKind, CpalError, CpalErrorKind};
use web_audio_control::devices::{DeviceDescription, DeviceFacts, HostFacts};
use web_audio_control::streams::{
    clamped_buffer_size, inspect_device, preferred_input_config, preferred_output_config,
    select_device, spawn_input_stream, spawn_output_stream, AudioContextLatencyCategory, BufferSize, BuildStep,
    CallbackAction, CpalBackend, DeviceChoice, Direction, SampleFormat, StreamBuild, StreamConfig,
    SupportedBufferSize, SupportedStreamConfig,
};

fn error(kind: CpalErrorKind) -> CpalError {
    CpalError {
        kind,
        text: "some words".to_string(),
    }
}

fn supported(channels: u16) -> SupportedStreamConfig {
    SupportedStreamConfig {
        channels,
        sample_rate: 44100,
        buffer_size: SupportedBufferSize::Range { min: 256, max: 1024 },
        sample_format: SampleFormat::F32,
    }
}

fn description() -> DeviceDescription {
    DeviceDescription {
        driver: None,
        name: "Card".to_string(),
    }
}

fn host() -> HostFacts {
    HostFacts {
        input_devices: Err(error(CpalErrorKind::BackendError)),
        output_devices: Ok(vec![DeviceFacts {
            description: Ok(description()),
            input_channels: None,
            output_channels: Some(2),
        }]),
    }
}

#[test]
fn buffer_sizes_are_clamped() {
    let range = SupportedBufferSize::Range { min: 256, max: 1024 };
    assert_eq!(clamped_buffer_size(128, range), 256);
    assert_eq!(clamped_buffer_size(512, range), 512);
    assert_eq!(clamped_buffer_size(4096, range), 1024);
    assert_eq!(clamped_buffer_size(128, SupportedBufferSize::Unknown), 128);
}

#[test]
fn output_configs() {
    let hint = AudioContextLatencyCategory::Interactive;
    assert_eq!(
        preferred_output_config(&supported(2), None, 128, hint, false),
        StreamConfig {
            channels: 2,
            sample_rate: 44100,
            buffer_size: BufferSize::Fixed(256),
        }
    );
    assert_eq!(
        preferred_output_config(&supported(64), Some(96000), 600, hint, true),
        StreamConfig {
            channels: 32,
            sample_rate: 96000,
            buffer_size: BufferSize::Default,
        }
    );
    assert_eq!(
        preferred_output_config(
            &supported(2),
            None,
            600,
            AudioContextLatencyCategory::Balanced,
            true
        )
        .buffer_size,
        BufferSize::Default
    );
    assert_eq!(
        preferred_output_config(
            &supported(2),
            None,
            600,
            AudioContextLatencyCategory::Playback,
            true
        )
        .buffer_size,
        BufferSize::Fixed(600)
    );
}

#[test]
fn input_configs() {
    let channels = |available, requested| {
        preferred_input_config(&supported(available), requested, None, 512).channels
    };
    assert_eq!(channels(2, None), 2);
    assert_eq!(channels(2, Some(1)), 1);
    assert_eq!(channels(2, Some(6)), 2);
    assert_eq!(channels(64, None), 32);
    assert_eq!(channels(64, Some(40)), 32);
    assert_eq!(channels(2, Some(65537)), 1);
    assert_eq!(channels(2, Some(0)), 0);
    assert_eq!(
        preferred_input_config(&supported(2), None, Some(16000), 9999),
        StreamConfig {
            channels: 2,
            sample_rate: 16000,
            buffer_size: BufferSize::Fixed(1024),
        }
    );
}

#[test]
fn formats() {
    for format in [
        SampleFormat::F32,
        SampleFormat::F64,
        SampleFormat::U8,
        SampleFormat::U16,
        SampleFormat::U32,
        SampleFormat::U64,
        SampleFormat::I8,
        SampleFormat::I16,
        SampleFormat::I32,
        SampleFormat::I64,
    ] {
        assert_eq!(spawn_output_stream(format, "no", |f| Ok(f)).unwrap(), format);
        assert_eq!(spawn_input_stream(format, "no", |f| Ok(f)).unwrap(), format);
    }
    for e in [
        spawn_output_stream(SampleFormat::Other, "not supported", |f| Ok(f)).unwrap_err(),
        spawn_input_stream(SampleFormat::Other, "not supported", |f| Ok(f)).unwrap_err(),
    ] {
        assert_eq!(e.kind, CpalErrorKind::UnsupportedConfig);
        assert_eq!(e.text, "not supported");
    }
    let e = spawn_output_stream(SampleFormat::F32, "not supported", |_| {
        Err::<(), _>(error(CpalErrorKind::DeviceBusy))
    })
    .unwrap_err();
    assert_eq!(e.kind, CpalErrorKind::DeviceBusy);
}

#[test]
fn devices_are_selected() {
    let id = "audiooutput:2:0:cpal:Card".to_string();
    let none = String::new();
    let other = "other".to_string();
    let select = |sink_id: &String, has_default| {
        select_device(Direction::Output, &host(), sink_id, has_default)
    };
    assert_eq!(select(&none, true).unwrap(), DeviceChoice::Default);
    assert_eq!(select(&id, false).unwrap(), DeviceChoice::Enumerated(0));
    assert_eq!(select(&other, true).unwrap(), DeviceChoice::Default);
    for (sink_id, operation) in [(&none, "default_output_device"), (&other, "select_output_device")] {
        let e = select(sink_id, false).unwrap_err();
        assert_eq!(e.kind, AudioBackendErrorKind::DeviceUnavailable);
        assert_eq!(e.operation, operation);
        assert_eq!(e.message, "No output device available");
    }

    let e = select_device(Direction::Input, &host(), &none, false).unwrap_err();
    assert_eq!(e.operation, "default_input_device");
    assert_eq!(e.message, "No input device available");
    let e = select_device(Direction::Input, &host(), &other, true).unwrap_err();
    assert_eq!(e.operation, "enumerate_input_devices");
    let empty = HostFacts {
        input_devices: Ok(vec![]),
        output_devices: Ok(vec![]),
    };
    let e = select_device(Direction::Input, &empty, &other, false).unwrap_err();
    assert_eq!(e.operation, "select_input_device");
}

#[test]
fn devices_are_inspected() {
    for (direction, name, config) in [
        (Direction::Output, "output_device_name", "default_output_config"),
        (Direction::Input, "input_device_name", "default_input_config"),
    ] {
        let gone = || error(CpalErrorKind::DeviceNotAvailable);
        let e = inspect_device(direction, &Err(gone()), &Ok(supported(2))).unwrap_err();
        assert_eq!(e.operation, name);
        let e = inspect_device(direction, &Ok(description()), &Err(gone())).unwrap_err();
        assert_eq!(e.operation, config);
        assert_eq!(
            inspect_device(direction, &Ok(description()), &Ok(supported(2))).unwrap(),
            supported(2)
        );
    }
}

fn output_build(channels: u16) -> StreamBuild {
    CpalBackend::build_output(
        supported(channels),
        Some(96000),
        512,
        AudioContextLatencyCategory::Interactive,
        false,
        "sink".to_string(),
    )
}

#[test]
fn output_stream_with_the_preferred_config() {
    let mut build = output_build(64);
    assert_eq!(build.config().sample_rate, 96000);
    assert!(matches!(build.on_spawned(&Ok(())), BuildStep::Play));
    let backend = build.on_played(&Ok(())).unwrap();
    assert_eq!(backend.sample_rate(), 96000);
    assert_eq!(backend.number_of_channels(), 32);
    assert_eq!(backend.sink_id(), "sink");
    assert_eq!(backend.callback_action(), CallbackAction::Render);
}

#[test]
fn output_stream_with_the_fallback_config() {
    let failure = || Err(error(CpalErrorKind::UnsupportedConfig));
    let mut build = output_build(64);
    match build.on_spawned(&failure()) {
        BuildStep::Spawn(config) => assert_eq!(
            config,
            StreamConfig {
                channels: 32,
                sample_rate: 44100,
                buffer_size: BufferSize::Default,
            }
        ),
        _ => unreachable!(),
    }
    assert!(matches!(build.on_spawned(&Ok(())), BuildStep::Play));
    let backend = build.on_played(&Ok(())).unwrap();
    assert_eq!(backend.sample_rate(), 44100);

    let mut build = output_build(2);
    let _ = build.on_spawned(&failure());
    match build.on_spawned(&failure()) {
        BuildStep::Failed(e) => {
            assert_eq!(e.operation, "build_fallback_output_stream");
            assert_eq!(e.kind, AudioBackendErrorKind::NotSupported);
        }
        _ => unreachable!(),
    }
    let e = output_build(2).on_played(&failure()).unwrap_err();
    assert_eq!(e.operation, "play_output_stream");
}

#[test]
fn input_stream_fallback() {
    let failure = || Err(error(CpalErrorKind::UnsupportedConfig));
    let input = |channels| {
        CpalBackend::build_input(supported(channels), Some(1), Some(8000), 512, String::new())
    };
    let mut build = input(2);
    assert_eq!(build.config().channels, 1);
    match build.on_spawned(&failure()) {
        BuildStep::Spawn(config) => assert_eq!(
            config,
            StreamConfig {
                channels: 2,
                sample_rate: 44100,
                buffer_size: BufferSize::Default,
            }
        ),
        _ => unreachable!(),
    }
    match build.on_spawned(&failure()) {
        BuildStep::Failed(e) => assert_eq!(e.operation, "build_fallback_input_stream"),
        _ => unreachable!(),
    }

    // too many channels to fall back on
    match input(64).on_spawned(&failure()) {
        BuildStep::Failed(e) => {
            assert_eq!(e.kind, AudioBackendErrorKind::NotSupported);
            assert_eq!(e.operation, "build_input_stream");
            assert_eq!(
                e.message,
                "Input device requires 64 channels, exceeding the supported maximum of 32; \
                 building a stream with 32 channels failed: some words"
            );
        }
        _ => unreachable!(),
    }
    assert_eq!(
        input(2).on_played(&failure()).unwrap_err().operation,
        "play_input_stream"
    );
    assert_eq!(input(2).on_played(&Ok(())).unwrap().number_of_channels(), 1);
}

fn backend() -> CpalBackend {
    output_build(2).on_played(&Ok(())).unwrap()
}

#[test]
fn suspension_with_native_pause() {
    let mut backend = backend();
    assert!(backend.suspend(|| Ok(())).unwrap());
    assert_eq!(backend.callback_action(), CallbackAction::Render);
    // a natively paused stream must be played again
    let e = backend
        .resume(|| Err(error(CpalErrorKind::BackendError)))
        .unwrap_err();
    assert_eq!(e.operation, "resume");
    assert!(backend.resume(|| Ok(())).unwrap());
}

#[test]
fn suspension_without_native_pause() {
    let mut backend = backend();
    assert!(backend
        .suspend(|| Err(error(CpalErrorKind::UnsupportedOperation)))
        .unwrap());
    assert_eq!(backend.callback_action(), CallbackAction::Silence);
    // the stream never stopped, a failure to play it is inconsequential
    assert!(backend
        .resume(|| Err(error(CpalErrorKind::UnsupportedOperation)))
        .unwrap());
    assert_eq!(backend.callback_action(), CallbackAction::Render);
}

#[test]
fn closed_backends_do_nothing() {
    let mut backend = backend();
    backend.close();
    assert!(!backend.suspend(|| unreachable!()).unwrap());
    assert!(!backend.resume(|| unreachable!()).unwrap());
}
