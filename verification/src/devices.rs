//! The devices of a host: which of them are audio endpoints, and under which ids they are offered.

use vstd::prelude::*;
use crate::backend::{BackendErrorView, BackendResult, CpalError, map_cpal_error, mapped_error};
use crate::media_devices::{MediaDeviceInfoKind, stable_device_id, stable_id, text_views};

verus! {

/// How a device describes itself.
#[derive(Debug)]
pub struct DeviceDescription {
    /// the backend's native device identifier; on ALSA that is the PCM name
    pub driver: Option<String>,
    /// the description in words
    pub name: String,
}

/// What is known of a device.
#[derive(Debug)]
pub struct DeviceFacts {
    pub description: Result<DeviceDescription, CpalError>,
    /// number of channels of the default input configuration, if there is one
    pub input_channels: Option<u16>,
    /// number of channels of the default output configuration, if there is one
    pub output_channels: Option<u16>,
}

/// The devices that a host enumerates.
#[derive(Debug)]
pub struct HostFacts {
    pub input_devices: Result<Vec<DeviceFacts>, CpalError>,
    pub output_devices: Result<Vec<DeviceFacts>, CpalError>,
}

/// Whether a device is a real audio endpoint.
///
/// ALSA's list of PCMs mixes real sound cards with plugin definitions. `null` accepts every sample
/// and discards it: it is backed by no hardware and carries no clock, so that a render thread bound
/// to it races ahead of wall-clock time. Everything else routes audio to something. Backends that
/// report no driver cannot surface such pseudo-devices in the first place.
pub open spec fn is_endpoint(device: DeviceFacts) -> bool {
    match device.description {
        Ok(description) => match description.driver {
            Some(driver) => driver@ != "null"@,
            None => true,
        },
        Err(_) => true,
    }
}

/// Number of channels of the default configuration of a device.
pub open spec fn channels_of(device: DeviceFacts, kind: MediaDeviceInfoKind) -> Option<u16> {
    match kind {
        MediaDeviceInfoKind::AudioInput => device.input_channels,
        MediaDeviceInfoKind::AudioOutput => device.output_channels,
        MediaDeviceInfoKind::VideoInput => None,
    }
}

/// Whether a device is offered at all.
pub open spec fn is_offered(device: DeviceFacts, kind: MediaDeviceInfoKind) -> bool {
    is_endpoint(device) && channels_of(device, kind) is Some
}

/// The description of a device in words, if it has one.
pub open spec fn name_of(device: DeviceFacts) -> Seq<char> {
    device.description->Ok_0.name@
}

/// The id of a device that is offered, after the ids of the devices before it.
pub open spec fn id_of(device: DeviceFacts, kind: MediaDeviceInfoKind, seen: Seq<Seq<char>>) -> Seq<
    char,
> {
    stable_id(kind, "cpal"@, name_of(device), channels_of(device, kind)->0, seen)
}

/// The ids of those devices of a list that are offered, in the order of the list.
pub open spec fn offered_ids(devices: Seq<DeviceFacts>, kind: MediaDeviceInfoKind) -> Seq<Seq<char>>
    decreases devices.len(),
{
    if devices.len() == 0 {
        Seq::empty()
    } else {
        let before = offered_ids(devices.drop_last(), kind);
        if is_offered(devices.last(), kind) {
            before.push(id_of(devices.last(), kind, before))
        } else {
            before
        }
    }
}

/// The failure to tell the name of a device.
pub open spec fn name_error(device: DeviceFacts) -> BackendErrorView {
    mapped_error("device_name"@, device.description->Err_0)
}

/// What comes of looking for an id among the devices of a list: the position of the first device
/// that has it, the failure to tell the name of a device before that, or nothing.
pub open spec fn lookup(devices: Seq<DeviceFacts>, kind: MediaDeviceInfoKind, id: Seq<char>) -> Option<
    Result<usize, BackendErrorView>,
>
    decreases devices.len(),
{
    if devices.len() == 0 {
        None
    } else {
        let device = devices.last();
        let earlier = devices.drop_last();
        match lookup(earlier, kind, id) {
            Some(outcome) => Some(outcome),
            None => if !is_offered(device, kind) {
                None
            } else if device.description is Err {
                Some(Err(name_error(device)))
            } else if id_of(device, kind, offered_ids(earlier, kind)) == id {
                Some(Ok(earlier.len() as usize))
            } else {
                None
            },
        }
    }
}

/// The devices of a kind that a host enumerates.
pub open spec fn devices_of(host: HostFacts, kind: MediaDeviceInfoKind) -> Result<
    Seq<DeviceFacts>,
    BackendErrorView,
> {
    match kind {
        MediaDeviceInfoKind::AudioInput => match host.input_devices {
            Ok(devices) => Ok(devices@),
            Err(e) => Err(mapped_error("enumerate_input_devices"@, e)),
        },
        MediaDeviceInfoKind::AudioOutput => match host.output_devices {
            Ok(devices) => Ok(devices@),
            Err(e) => Err(mapped_error("enumerate_output_devices"@, e)),
        },
        MediaDeviceInfoKind::VideoInput => Ok(Seq::empty()),
    }
}

/// The device of a host that has an id.
pub open spec fn device_for_id(host: HostFacts, kind: MediaDeviceInfoKind, id: Seq<char>) -> Result<
    Option<usize>,
    BackendErrorView,
> {
    match devices_of(host, kind) {
        Err(e) => Err(e),
        Ok(devices) => match lookup(devices, kind, id) {
            None => Ok(None),
            Some(Ok(i)) => Ok(Some(i)),
            Some(Err(e)) => Err(e),
        },
    }
}

/// The result of a backend operation, as contracts speak of it.
pub open spec fn result_view<T>(r: BackendResult<T>) -> Result<T, BackendErrorView> {
    match r {
        Ok(value) => Ok(value),
        Err(e) => Err(e@),
    }
}

/// Tells whether a device is a real audio endpoint.
///
/// Every walk over the enumeration must apply this, because the id of a device depends on the
/// devices seen before it.
pub fn is_audio_endpoint(device: &DeviceFacts) -> (r: bool)
    ensures
        r == is_endpoint(*device),
{
    match &device.description {
        Ok(description) => match &description.driver {
            Some(driver) => !(*driver == "null".to_owned()),
            None => true,
        },
        Err(_) => true,
    }
}

/// Number of channels of the default configuration of a device.
pub fn cpal_device_channels(device: &DeviceFacts, kind: MediaDeviceInfoKind) -> (r: Option<u16>)
    ensures
        r == channels_of(*device, kind),
{
    match kind {
        MediaDeviceInfoKind::AudioInput => device.input_channels,
        MediaDeviceInfoKind::AudioOutput => device.output_channels,
        MediaDeviceInfoKind::VideoInput => None,
    }
}

/// The id of a device, after the ids of the devices before it.
pub fn cpal_stable_device_id(
    device: &DeviceFacts,
    kind: MediaDeviceInfoKind,
    num_channels: u16,
    seen: &Vec<String>,
) -> (r: BackendResult<String>)
    ensures
        match r {
            Ok(id) => device.description is Ok && id@ == stable_id(
                kind,
                "cpal"@,
                name_of(*device),
                num_channels,
                text_views(seen@),
            ),
            Err(e) => device.description is Err && e@ == name_error(*device),
        },
{
    match &device.description {
        Ok(description) => Ok(
            stable_device_id("cpal", kind, &description.name, num_channels, seen),
        ),
        Err(e) => Err(map_cpal_error("device_name", e)),
    }
}

/// Finds an id among the devices of a list.
fn find_device(devices: &Vec<DeviceFacts>, kind: MediaDeviceInfoKind, device_id: &String) -> (r:
    BackendResult<Option<usize>>)
    ensures
        match lookup(devices@, kind, device_id@) {
            None => result_view(r) == Ok::<Option<usize>, BackendErrorView>(None),
            Some(Ok(i)) => result_view(r) == Ok::<Option<usize>, BackendErrorView>(Some(i)),
            Some(Err(e)) => result_view(r) == Err::<Option<usize>, BackendErrorView>(e),
        },
{
    let mut seen: Vec<String> = Vec::new();
    let mut i: usize = 0;
    assert(text_views(seen@) =~= offered_ids(devices@.take(0), kind));
    while i < devices.len()
        invariant
            i <= devices@.len(),
            text_views(seen@) == offered_ids(devices@.take(i as int), kind),
            lookup(devices@.take(i as int), kind, device_id@) is None,
        decreases devices@.len() - i,
    {
        let device = &devices[i];
        let ghost now = devices@.take(i + 1);
        proof {
            assert(now.drop_last() =~= devices@.take(i as int));
            assert(now.last() == *device);
        }
        if is_audio_endpoint(device) {
            if let Some(num_channels) = cpal_device_channels(device, kind) {
                match cpal_stable_device_id(device, kind, num_channels, &seen) {
                    Ok(stable_id) => {
                        if stable_id == *device_id {
                            proof {
                                lemma_lookup_prefix(devices@, kind, device_id@, i + 1);
                            }
                            return Ok(Some(i));
                        }
                        let ghost before = seen@;
                        seen.push(stable_id);
                        assert(text_views(seen@) =~= text_views(before).push(stable_id@));
                    },
                    Err(e) => {
                        proof {
                            lemma_lookup_prefix(devices@, kind, device_id@, i + 1);
                        }
                        return Err(e);
                    },
                }
            }
        }
        i += 1;
    }
    assert(devices@.take(i as int) =~= devices@);
    Ok(None)
}

/// Looking for an id stops at the first device that decides.
proof fn lemma_lookup_prefix(
    devices: Seq<DeviceFacts>,
    kind: MediaDeviceInfoKind,
    id: Seq<char>,
    n: int,
)
    requires
        0 <= n <= devices.len(),
        lookup(devices.take(n), kind, id) is Some,
    ensures
        lookup(devices, kind, id) == lookup(devices.take(n), kind, id),
    decreases devices.len() - n,
{
    if n < devices.len() {
        assert(devices.take(n + 1).drop_last() =~= devices.take(n));
        lemma_lookup_prefix(devices, kind, id, n + 1);
    } else {
        assert(devices.take(n) =~= devices);
    }
}

/// Finds the device of a host that has an id.
pub fn cpal_device_for_id(host: &HostFacts, kind: MediaDeviceInfoKind, device_id: &String) -> (r:
    BackendResult<Option<usize>>)
    ensures
        result_view(r) == device_for_id(*host, kind, device_id@),
{
    match kind {
        MediaDeviceInfoKind::AudioInput => match &host.input_devices {
            Ok(devices) => find_device(devices, kind, device_id),
            Err(e) => Err(map_cpal_error("enumerate_input_devices", e)),
        },
        MediaDeviceInfoKind::AudioOutput => match &host.output_devices {
            Ok(devices) => find_device(devices, kind, device_id),
            Err(e) => Err(map_cpal_error("enumerate_output_devices", e)),
        },
        MediaDeviceInfoKind::VideoInput => Ok(None),
    }
}

/// Description of a media device.
#[derive(Debug)]
pub struct MediaDeviceInfo {
    device_id: String,
    group_id: Option<String>,
    kind: MediaDeviceInfoKind,
    label: String,
}

/// Description of a media device, as contracts speak of it.
#[verifier::ext_equal]
pub struct MediaDeviceInfoView {
    pub device_id: Seq<char>,
    pub group_id: Option<Seq<char>>,
    pub kind: MediaDeviceInfoKind,
    pub label: Seq<char>,
}

impl View for MediaDeviceInfo {
    type V = MediaDeviceInfoView;

    closed spec fn view(&self) -> MediaDeviceInfoView {
        MediaDeviceInfoView {
            device_id: self.device_id@,
            group_id: match self.group_id {
                Some(group_id) => Some(group_id@),
                None => None,
            },
            kind: self.kind,
            label: self.label@,
        }
    }
}

impl MediaDeviceInfo {
    /// Describes a device.
    pub fn new(
        device_id: String,
        group_id: Option<String>,
        kind: MediaDeviceInfoKind,
        label: String,
    ) -> (r: Self)
        ensures
            r@ == (MediaDeviceInfoView {
                device_id: device_id@,
                group_id: match group_id {
                    Some(group_id) => Some(group_id@),
                    None => None,
                },
                kind,
                label: label@,
            }),
    {
        MediaDeviceInfo { device_id, group_id, kind, label }
    }

    /// Identifier for the represented device.
    pub fn device_id(&self) -> (r: &String)
        ensures
            r@ == self@.device_id,
    {
        &self.device_id
    }

    /// Two devices have the same group identifier if they belong to the same physical device.
    pub fn group_id(&self) -> (r: Option<&String>)
        ensures
            match r {
                Some(group_id) => self@.group_id == Some(group_id@),
                None => self@.group_id is None,
            },
    {
        match &self.group_id {
            Some(group_id) => Some(group_id),
            None => None,
        }
    }

    /// What the device is for.
    pub fn kind(&self) -> (r: MediaDeviceInfoKind)
        ensures
            r == self@.kind,
    {
        self.kind
    }

    /// Friendly label describing this device.
    pub fn label(&self) -> (r: &String)
        ensures
            r@ == self@.label,
    {
        &self.label
    }
}

/// Descriptions of devices.
pub open spec fn info_views(infos: Seq<MediaDeviceInfo>) -> Seq<MediaDeviceInfoView> {
    infos.map_values(|info: MediaDeviceInfo| info@)
}

/// The ids of devices.
pub open spec fn info_ids(infos: Seq<MediaDeviceInfoView>) -> Seq<Seq<char>> {
    infos.map_values(|info: MediaDeviceInfoView| info.device_id)
}

/// The description of a device that is offered, after the devices described before.
pub open spec fn described(
    device: DeviceFacts,
    kind: MediaDeviceInfoKind,
    before: Seq<MediaDeviceInfoView>,
) -> MediaDeviceInfoView {
    MediaDeviceInfoView {
        device_id: id_of(device, kind, info_ids(before)),
        group_id: None,
        kind,
        label: name_of(device),
    }
}

/// The devices described before, and those of a list that are offered, in the order of the list; or
/// the failure to tell the name of one.
pub open spec fn listed(
    devices: Seq<DeviceFacts>,
    kind: MediaDeviceInfoKind,
    before: Seq<MediaDeviceInfoView>,
) -> Result<Seq<MediaDeviceInfoView>, BackendErrorView>
    decreases devices.len(),
{
    if devices.len() == 0 {
        Ok(before)
    } else {
        let device = devices.last();
        match listed(devices.drop_last(), kind, before) {
            Err(e) => Err(e),
            Ok(list) => if !is_offered(device, kind) {
                Ok(list)
            } else if device.description is Err {
                Err(name_error(device))
            } else {
                Ok(list.push(described(device, kind, list)))
            },
        }
    }
}

/// All devices of a host that are offered: those for input, then those for output.
pub open spec fn enumeration(host: HostFacts) -> Result<Seq<MediaDeviceInfoView>, BackendErrorView> {
    match devices_of(host, MediaDeviceInfoKind::AudioInput) {
        Err(e) => Err(e),
        Ok(inputs) => match devices_of(host, MediaDeviceInfoKind::AudioOutput) {
            Err(e) => Err(e),
            Ok(outputs) => match listed(inputs, MediaDeviceInfoKind::AudioInput, Seq::empty()) {
                Err(e) => Err(e),
                Ok(list) => listed(outputs, MediaDeviceInfoKind::AudioOutput, list),
            },
        },
    }
}

/// Once a name cannot be told, the enumeration fails.
proof fn lemma_listed_prefix(
    devices: Seq<DeviceFacts>,
    kind: MediaDeviceInfoKind,
    before: Seq<MediaDeviceInfoView>,
    n: int,
)
    requires
        0 <= n <= devices.len(),
        listed(devices.take(n), kind, before) is Err,
    ensures
        listed(devices, kind, before) == listed(devices.take(n), kind, before),
    decreases devices.len() - n,
{
    if n < devices.len() {
        assert(devices.take(n + 1).drop_last() =~= devices.take(n));
        lemma_listed_prefix(devices, kind, before, n + 1);
    } else {
        assert(devices.take(n) =~= devices);
    }
}

/// Appends descriptions of those devices of a list that are offered.
fn list_devices(
    devices: &Vec<DeviceFacts>,
    kind: MediaDeviceInfoKind,
    list: Vec<MediaDeviceInfo>,
) -> (r: BackendResult<Vec<MediaDeviceInfo>>)
    ensures
        match r {
            Ok(infos) => listed(devices@, kind, info_views(list@)) == Ok::<_, BackendErrorView>(
                info_views(infos@),
            ),
            Err(e) => listed(devices@, kind, info_views(list@)) == Err::<
                Seq<MediaDeviceInfoView>,
                _,
            >(e@),
        },
{
    let ghost before = info_views(list@);
    let mut infos = list;
    let mut seen: Vec<String> = Vec::new();
    let mut k: usize = 0;
    while k < infos.len()
        invariant
            k <= infos@.len(),
            infos == list,
            seen@.len() == k,
            forall|j: int| 0 <= j < k ==> (#[trigger] seen@[j])@ == infos@[j]@.device_id,
        decreases infos@.len() - k,
    {
        seen.push(infos[k].device_id.clone());
        k += 1;
    }
    assert(text_views(seen@) =~= info_ids(info_views(infos@)));
    assert(devices@.take(0) =~= Seq::empty());
    let mut i: usize = 0;
    while i < devices.len()
        invariant
            i <= devices@.len(),
            before == info_views(list@),
            text_views(seen@) == info_ids(info_views(infos@)),
            listed(devices@.take(i as int), kind, before) == Ok::<_, BackendErrorView>(
                info_views(infos@),
            ),
        decreases devices@.len() - i,
    {
        let device = &devices[i];
        let ghost now = devices@.take(i + 1);
        proof {
            assert(now.drop_last() =~= devices@.take(i as int));
            assert(now.last() == *device);
        }
        if is_audio_endpoint(device) {
            if let Some(num_channels) = cpal_device_channels(device, kind) {
                match &device.description {
                    Ok(description) => {
                        let device_id = stable_device_id(
                            "cpal",
                            kind,
                            &description.name,
                            num_channels,
                            &seen,
                        );
                        let ghost ids = seen@;
                        let ghost earlier = infos@;
                        seen.push(device_id.clone());
                        let info = MediaDeviceInfo::new(
                            device_id,
                            None,
                            kind,
                            description.name.clone(),
                        );
                        infos.push(info);
                        proof {
                            assert(text_views(seen@) =~= text_views(ids).push(device_id@));
                            assert(info_views(infos@) =~= info_views(earlier).push(info@));
                            assert(info_ids(info_views(infos@)) =~= info_ids(
                                info_views(earlier),
                            ).push(device_id@));
                            assert(info@ == described(*device, kind, info_views(earlier)));
                        }
                    },
                    Err(e) => {
                        proof {
                            assert(listed(now, kind, before) == Err::<
                                Seq<MediaDeviceInfoView>,
                                _,
                            >(name_error(*device)));
                            lemma_listed_prefix(devices@, kind, before, i + 1);
                        }
                        return Err(map_cpal_error("device_name", e));
                    },
                }
            }
        }
        i += 1;
    }
    assert(devices@.take(i as int) =~= devices@);
    Ok(infos)
}

/// Describes all devices of a host that are offered: those for input, then those for output.
pub fn enumerate_devices(host: &HostFacts) -> (r: BackendResult<Vec<MediaDeviceInfo>>)
    ensures
        match r {
            Ok(infos) => enumeration(*host) == Ok::<_, BackendErrorView>(info_views(infos@)),
            Err(e) => enumeration(*host) == Err::<Seq<MediaDeviceInfoView>, _>(e@),
        },
{
    let inputs = match &host.input_devices {
        Ok(devices) => devices,
        Err(e) => {
            return Err(map_cpal_error("enumerate_input_devices", e));
        },
    };
    let outputs = match &host.output_devices {
        Ok(devices) => devices,
        Err(e) => {
            return Err(map_cpal_error("enumerate_output_devices", e));
        },
    };
    let none: Vec<MediaDeviceInfo> = Vec::new();
    assert(info_views(none@) =~= Seq::empty());
    match list_devices(inputs, MediaDeviceInfoKind::AudioInput, none) {
        Ok(list) => list_devices(outputs, MediaDeviceInfoKind::AudioOutput, list),
        Err(e) => Err(e),
    }
}

} // verus!
