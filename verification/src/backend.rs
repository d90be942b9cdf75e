//! Errors of the audio backend.

use vstd::prelude::*;

verus! {

/// What went wrong in the audio backend.
#[derive(Clone, Copy, Debug, PartialEq, Eq, Structural)]
pub enum AudioBackendErrorKind {
    DeviceUnavailable,
    NotSupported,
    InvalidArgument,
    BackendSpecific,
}

/// An error of the audio backend.
#[derive(Debug)]
pub struct AudioBackendError {
    pub kind: AudioBackendErrorKind,
    /// the backend that failed
    pub backend: &'static str,
    /// what it was doing
    pub operation: &'static str,
    /// its own words
    pub message: String,
}

/// An error of the audio backend, as contracts speak of it.
#[verifier::ext_equal]
pub struct BackendErrorView {
    pub kind: AudioBackendErrorKind,
    pub backend: Seq<char>,
    pub operation: Seq<char>,
    pub message: Seq<char>,
}

impl View for AudioBackendError {
    type V = BackendErrorView;

    open spec fn view(&self) -> BackendErrorView {
        BackendErrorView {
            kind: self.kind,
            backend: self.backend@,
            operation: self.operation@,
            message: self.message@,
        }
    }
}

/// The result of a backend operation.
pub type BackendResult<T> = Result<T, AudioBackendError>;

impl AudioBackendError {
    /// Creates an error.
    pub fn new(
        kind: AudioBackendErrorKind,
        backend: &'static str,
        operation: &'static str,
        message: String,
    ) -> (r: Self)
        ensures
            r@ == (BackendErrorView {
                kind,
                backend: backend@,
                operation: operation@,
                message: message@,
            }),
    {
        AudioBackendError { kind, backend, operation, message }
    }
}

/// The kinds of errors that the audio device layer reports.
#[derive(Clone, Copy, Debug, PartialEq, Eq, Structural)]
pub enum CpalErrorKind {
    DeviceBusy,
    DeviceChanged,
    DeviceNotAvailable,
    HostUnavailable,
    InvalidInput,
    PermissionDenied,
    RealtimeDenied,
    ResourceExhausted,
    StreamInvalidated,
    UnsupportedConfig,
    UnsupportedOperation,
    Xrun,
    BackendError,
    /// a catch-all, also for kinds that are yet to come
    Other,
}

/// An error of the audio device layer.
#[derive(Debug)]
pub struct CpalError {
    pub kind: CpalErrorKind,
    /// the error in words
    pub text: String,
}

/// What an error of the audio device layer means to the users of the backend.
pub open spec fn backend_error_kind(kind: CpalErrorKind) -> AudioBackendErrorKind {
    match kind {
        CpalErrorKind::DeviceNotAvailable => AudioBackendErrorKind::DeviceUnavailable,
        CpalErrorKind::UnsupportedConfig => AudioBackendErrorKind::NotSupported,
        CpalErrorKind::UnsupportedOperation => AudioBackendErrorKind::NotSupported,
        CpalErrorKind::InvalidInput => AudioBackendErrorKind::InvalidArgument,
        _ => AudioBackendErrorKind::BackendSpecific,
    }
}

/// An error of the audio device layer during an operation.
pub open spec fn mapped_error(operation: Seq<char>, err: CpalError) -> BackendErrorView {
    BackendErrorView {
        kind: backend_error_kind(err.kind),
        backend: "cpal"@,
        operation,
        message: err.text@,
    }
}

/// The operation could not get hold of a device.
pub open spec fn unavailable_error(operation: Seq<char>, message: Seq<char>) -> BackendErrorView {
    BackendErrorView {
        kind: AudioBackendErrorKind::DeviceUnavailable,
        backend: "cpal"@,
        operation,
        message,
    }
}

/// Creates an error of the backend out of the words of the audio device layer.
pub fn map_cpal_backend_error(
    kind: AudioBackendErrorKind,
    operation: &'static str,
    text: &String,
) -> (r: AudioBackendError)
    ensures
        r@ == (BackendErrorView {
            kind,
            backend: "cpal"@,
            operation: operation@,
            message: text@,
        }),
{
    AudioBackendError::new(kind, "cpal", operation, text.clone())
}

/// Maps an error of the audio device layer.
pub fn map_cpal_error(operation: &'static str, err: &CpalError) -> (r: AudioBackendError)
    ensures
        r@ == mapped_error(operation@, *err),
{
    let kind = match err.kind {
        CpalErrorKind::DeviceNotAvailable => AudioBackendErrorKind::DeviceUnavailable,
        CpalErrorKind::UnsupportedConfig => AudioBackendErrorKind::NotSupported,
        CpalErrorKind::UnsupportedOperation => AudioBackendErrorKind::NotSupported,
        CpalErrorKind::InvalidInput => AudioBackendErrorKind::InvalidArgument,
        CpalErrorKind::DeviceBusy => AudioBackendErrorKind::BackendSpecific,
        CpalErrorKind::DeviceChanged => AudioBackendErrorKind::BackendSpecific,
        CpalErrorKind::HostUnavailable => AudioBackendErrorKind::BackendSpecific,
        CpalErrorKind::PermissionDenied => AudioBackendErrorKind::BackendSpecific,
        CpalErrorKind::RealtimeDenied => AudioBackendErrorKind::BackendSpecific,
        CpalErrorKind::ResourceExhausted => AudioBackendErrorKind::BackendSpecific,
        CpalErrorKind::StreamInvalidated => AudioBackendErrorKind::BackendSpecific,
        CpalErrorKind::Xrun => AudioBackendErrorKind::BackendSpecific,
        CpalErrorKind::BackendError => AudioBackendErrorKind::BackendSpecific,
        CpalErrorKind::Other => AudioBackendErrorKind::BackendSpecific,
    };
    map_cpal_backend_error(kind, operation, &err.text)
}

/// Creates the error of an operation that could not get hold of a device.
pub fn device_unavailable(operation: &'static str, message: &'static str) -> (r: AudioBackendError)
    ensures
        r@ == unavailable_error(operation@, message@),
{
    AudioBackendError::new(
        AudioBackendErrorKind::DeviceUnavailable,
        "cpal",
        operation,
        message.to_owned(),
    )
}

/// What became of a host that would be preferred to the default one.
#[derive(Clone, Copy, Debug, PartialEq, Eq, Structural)]
pub enum HostProbe {
    /// this system does not have it
    Missing,
    /// it could not be opened
    Unavailable,
    /// its devices could not be listed
    NotEnumerable,
    /// it has that many devices
    Devices(usize),
}

/// Whether a host can be used: it has devices.
pub open spec fn usable_host(probe: HostProbe) -> bool {
    probe matches HostProbe::Devices(n) && n > 0
}

/// Tells whether a host can be preferred to the default one.
pub fn preferred_host(probe: HostProbe) -> (r: bool)
    ensures
        r == usable_host(probe),
{
    match probe {
        HostProbe::Devices(n) => n > 0,
        _ => false,
    }
}

/// Picks a host: the first of the preferred ones that can be used, or else (`None`) the default
/// one.
pub fn get_host(preferred: &Vec<HostProbe>) -> (r: Option<usize>)
    ensures
        match r {
            Some(i) => i < preferred@.len() && usable_host(preferred@[i as int]) && forall|j: int|
                0 <= j < i ==> !usable_host(#[trigger] preferred@[j]),
            None => forall|j: int|
                0 <= j < preferred@.len() ==> !usable_host(#[trigger] preferred@[j]),
        },
{
    let mut i: usize = 0;
    while i < preferred.len()
        invariant
            i <= preferred@.len(),
            forall|j: int| 0 <= j < i ==> !usable_host(#[trigger] preferred@[j]),
        decreases preferred@.len() - i,
    {
        if preferred_host(preferred[i]) {
            return Some(i);
        }
        i += 1;
    }
    None
}

} // verus!
