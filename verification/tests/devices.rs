use web_audio_control::backend::{
    get_host, map_cpal_error, preferred_host, AudioBackendErrorKind, CpalError, CpalErrorKind,
    HostProbe,
};
use web_audio_control::devices::{
    cpal_device_channels, cpal_device_for_id, enumerate_devices, is_audio_endpoint,
    DeviceDescription, DeviceFacts, HostFacts,
};
use web_audio_control::media_devices::{stable_device_id, DeviceId, MediaDeviceInfoKind};
use web_audio_control::streams::CpalBackend;

fn error(kind: CpalErrorKind, text: &str) -> CpalError {
    CpalError {
        kind,
        text: text.to_string(),
    }
}

fn device(driver: Option<&str>, name: &str, inputs: Option<u16>, outputs: Option<u16>) -> DeviceFacts {
    DeviceFacts {
        description: Ok(DeviceDescription {
            driver: driver.map(|d| d.to_string()),
            name: name.to_string(),
        }),
        input_channels: inputs,
        output_channels: outputs,
    }
}

fn nameless(outputs: Option<u16>) -> DeviceFacts {
    DeviceFacts {
        description: Err(error(CpalErrorKind::DeviceNotAvailable, "gone")),
        input_channels: None,
        output_channels: outputs,
    }
}

fn host(inputs: Vec<DeviceFacts>, outputs: Vec<DeviceFacts>) -> HostFacts {
    HostFacts {
        input_devices: Ok(inputs),
        output_devices: Ok(outputs),
    }
}

#[test]
fn errors_are_mapped() {
    for (kind, expected) in [
        (CpalErrorKind::DeviceNotAvailable, AudioBackendErrorKind::DeviceUnavailable),
        (CpalErrorKind::UnsupportedConfig, AudioBackendErrorKind::NotSupported),
        (CpalErrorKind::UnsupportedOperation, AudioBackendErrorKind::NotSupported),
        (CpalErrorKind::InvalidInput, AudioBackendErrorKind::InvalidArgument),
        (CpalErrorKind::DeviceBusy, AudioBackendErrorKind::BackendSpecific),
        (CpalErrorKind::DeviceChanged, AudioBackendErrorKind::BackendSpecific),
        (CpalErrorKind::HostUnavailable, AudioBackendErrorKind::BackendSpecific),
        (CpalErrorKind::PermissionDenied, AudioBackendErrorKind::BackendSpecific),
        (CpalErrorKind::RealtimeDenied, AudioBackendErrorKind::BackendSpecific),
        (CpalErrorKind::ResourceExhausted, AudioBackendErrorKind::BackendSpecific),
        (CpalErrorKind::StreamInvalidated, AudioBackendErrorKind::BackendSpecific),
        (CpalErrorKind::Xrun, AudioBackendErrorKind::BackendSpecific),
        (CpalErrorKind::BackendError, AudioBackendErrorKind::BackendSpecific),
        (CpalErrorKind::Other, AudioBackendErrorKind::BackendSpecific),
    ] {
        let e = map_cpal_error("resume", &error(kind, "some words"));
        assert_eq!(e.kind, expected);
        assert_eq!(e.backend, "cpal");
        assert_eq!(e.operation, "resume");
        assert_eq!(e.message, "some words");
    }
}

#[test]
fn hosts_with_devices_are_preferred() {
    assert!(preferred_host(HostProbe::Devices(1)));
    assert!(!preferred_host(HostProbe::Devices(0)));
    assert_eq!(get_host(&vec![]), None);
    assert_eq!(
        get_host(&vec![
            HostProbe::Missing,
            HostProbe::Devices(2),
            HostProbe::Devices(1)
        ]),
        Some(1)
    );
    assert_eq!(
        get_host(&vec![HostProbe::Unavailable, HostProbe::NotEnumerable]),
        None
    );
}

#[test]
fn device_ids_tell_what_they_are_made_of() {
    assert_eq!(
        DeviceId::as_string(
            MediaDeviceInfoKind::AudioOutput,
            "cpal",
            &"Speakers: left".to_string(),
            65535,
            1230
        ),
        "audiooutput:65535:1230:cpal:Speakers: left"
    );
    assert_eq!(
        DeviceId::as_string(MediaDeviceInfoKind::AudioInput, "cpal", &String::new(), 0, 0),
        "audioinput:0:0:cpal:"
    );
}

#[test]
fn equal_devices_get_different_ids() {
    let name = "Card".to_string();
    let mut seen = Vec::new();
    for i in 0..12 {
        let id = stable_device_id("cpal", MediaDeviceInfoKind::AudioOutput, &name, 2, &seen);
        assert_eq!(id, format!("audiooutput:2:{i}:cpal:Card"));
        seen.push(id);
    }
    // the first gap is filled
    seen.remove(5);
    assert_eq!(
        stable_device_id("cpal", MediaDeviceInfoKind::AudioOutput, &name, 2, &seen),
        "audiooutput:2:5:cpal:Card"
    );
}

#[test]
fn pseudo_devices_are_no_endpoints() {
    assert!(!is_audio_endpoint(&device(Some("null"), "Discard", None, Some(2))));
    assert!(is_audio_endpoint(&device(Some("default"), "Default", None, Some(2))));
    assert!(is_audio_endpoint(&device(Some("null2"), "Other", None, Some(2))));
    assert!(is_audio_endpoint(&device(None, "null", None, Some(2))));
    assert!(is_audio_endpoint(&nameless(Some(2))));
}

#[test]
fn channels_depend_on_the_kind() {
    let d = device(None, "Card", Some(1), Some(6));
    assert_eq!(cpal_device_channels(&d, MediaDeviceInfoKind::AudioInput), Some(1));
    assert_eq!(cpal_device_channels(&d, MediaDeviceInfoKind::AudioOutput), Some(6));
    assert_eq!(cpal_device_channels(&d, MediaDeviceInfoKind::VideoInput), None);
}

fn example_host() -> HostFacts {
    host(
        vec![
            device(Some("hw:0"), "Card", Some(2), Some(2)),
            device(Some("hw:1"), "Line out", None, Some(2)),
            device(Some("hw:0"), "Card", Some(2), Some(2)),
        ],
        vec![
            device(Some("null"), "Card", Some(2), Some(2)),
            device(Some("hw:0"), "Card", Some(2), Some(2)),
            device(Some("hw:2"), "Card", None, Some(2)),
            device(Some("hw:3"), "Microphone", Some(1), None),
            device(Some("hw:4"), "HDMI", None, Some(8)),
        ],
    )
}

#[test]
fn enumerated_devices_are_found() {
    let host = example_host();
    let list = CpalBackend::enumerate_devices_sync(&host).unwrap();
    let ids: Vec<&str> = list.iter().map(|d| d.device_id().as_str()).collect();
    assert_eq!(
        ids,
        vec![
            "audioinput:2:0:cpal:Card",
            "audioinput:2:1:cpal:Card",
            "audiooutput:2:0:cpal:Card",
            "audiooutput:2:1:cpal:Card",
            "audiooutput:8:0:cpal:HDMI",
        ]
    );
    assert_eq!(list[4].label(), "HDMI");
    assert_eq!(list[4].kind(), MediaDeviceInfoKind::AudioOutput);
    assert!(list[4].group_id().is_none());
    for (k, position) in [(0, 0), (1, 2), (2, 1), (3, 2), (4, 4)] {
        assert_eq!(
            cpal_device_for_id(&host, list[k].kind(), list[k].device_id()).unwrap(),
            Some(position)
        );
    }
    // an id that no entry carries is the id of no device
    for kind in [MediaDeviceInfoKind::AudioInput, MediaDeviceInfoKind::AudioOutput] {
        let unknown = "audiooutput:2:2:cpal:Card".to_string();
        assert_eq!(cpal_device_for_id(&host, kind, &unknown).unwrap(), None);
    }
    assert!(CpalBackend::output_sink_id_exists(&host, list[4].device_id()).unwrap());
    // an input device is no output device
    assert!(!CpalBackend::output_sink_id_exists(&host, list[0].device_id()).unwrap());
    assert_eq!(
        cpal_device_for_id(&host, MediaDeviceInfoKind::VideoInput, list[0].device_id()).unwrap(),
        None
    );
}

#[test]
fn nameless_devices_stop_the_walk() {
    let facts = host(
        vec![],
        vec![
            device(None, "Card", None, Some(2)),
            nameless(None),
            nameless(Some(2)),
        ],
    );
    let output = MediaDeviceInfoKind::AudioOutput;
    let first = "audiooutput:2:0:cpal:Card".to_string();
    assert_eq!(cpal_device_for_id(&facts, output, &first).unwrap(), Some(0));
    let e = cpal_device_for_id(&facts, output, &"other".to_string()).unwrap_err();
    assert_eq!(e.operation, "device_name");
    assert_eq!(e.kind, AudioBackendErrorKind::DeviceUnavailable);
    assert_eq!(e.message, "gone");
    assert_eq!(enumerate_devices(&facts).unwrap_err().operation, "device_name");
    assert_eq!(
        CpalBackend::output_sink_id_exists(&facts, &"other".to_string())
            .unwrap_err()
            .operation,
        "device_name"
    );
}

#[test]
fn hosts_that_cannot_enumerate() {
    let broken = HostFacts {
        input_devices: Err(error(CpalErrorKind::BackendError, "in")),
        output_devices: Err(error(CpalErrorKind::BackendError, "out")),
    };
    assert_eq!(
        enumerate_devices(&broken).unwrap_err().operation,
        "enumerate_input_devices"
    );
    let id = "x".to_string();
    let e = cpal_device_for_id(&broken, MediaDeviceInfoKind::AudioInput, &id).unwrap_err();
    assert_eq!((e.operation, e.message.as_str()), ("enumerate_input_devices", "in"));
    let e = cpal_device_for_id(&broken, MediaDeviceInfoKind::AudioOutput, &id).unwrap_err();
    assert_eq!((e.operation, e.message.as_str()), ("enumerate_output_devices", "out"));
    let broken = HostFacts {
        input_devices: Ok(vec![nameless(None)]),
        output_devices: Err(error(CpalErrorKind::BackendError, "out")),
    };
    assert_eq!(
        enumerate_devices(&broken).unwrap_err().operation,
        "enumerate_output_devices"
    );
}
