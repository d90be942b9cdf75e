//! Which devices a host offers, under which ids, and which of them is selected.

use vstd::prelude::*;
use crate::backend::{AudioBackendError, BackendErrorView, BackendResult, CpalError};
use crate::config_laws::tells;
use crate::device_laws::{
    law_enumerated_devices_are_found, law_enumerated_ids_are_distinct, law_unknown_ids_are_not_found,
    offered_positions,
};
use crate::devices::{
    DeviceFacts, HostFacts, MediaDeviceInfo, MediaDeviceInfoView, channels_of, cpal_device_channels,
    cpal_device_for_id, cpal_stable_device_id, devices_of, enumerate_devices, enumeration, id_of,
    info_ids, info_views, is_audio_endpoint, is_offered, listed, lookup, name_error, name_of,
    offered_ids, result_view,
};
use crate::media_devices::{
    MediaDeviceInfoKind, device_id_text, first_free, lemma_first_free_exists, stable_device_id,
    stable_id, text_views,
};
use crate::streams::{CpalBackend, DeviceChoice, Direction, select_device};
use crate::text_laws::{is_device_id, lemma_is_device_id};

verus! {

/// A sink id that a device has selects that device, whether or not the host has a default device.
/// The default device steps in exactly where no device has the id, or no id is given; without a
/// default device those are failures.
pub proof fn law_sink_id_selects_its_device(
    direction: Direction,
    host: HostFacts,
    sink_id: String,
    has_default: bool,
    found: BackendResult<Option<usize>>,
    r: BackendResult<DeviceChoice>,
)
    requires
        call_ensures(select_device, (direction, &host, &sink_id, has_default), r),
        direction is Output ==> call_ensures(
            cpal_device_for_id,
            (&host, MediaDeviceInfoKind::AudioOutput, &sink_id),
            found,
        ),
        direction is Input ==> call_ensures(
            cpal_device_for_id,
            (&host, MediaDeviceInfoKind::AudioInput, &sink_id),
            found,
        ),
    ensures
        sink_id@.len() > 0 && found is Ok && found->Ok_0 is Some ==> r == Ok::<
            DeviceChoice,
            AudioBackendError,
        >(DeviceChoice::Enumerated(found->Ok_0->0)),
        sink_id@.len() > 0 && found is Err ==> (r matches Err(e) && e@ == (found->Err_0)@),
        (sink_id@.len() == 0 || (found is Ok && found->Ok_0 is None)) && has_default ==> r == Ok::<
            DeviceChoice,
            AudioBackendError,
        >(DeviceChoice::Default),
        (sink_id@.len() == 0 || (found is Ok && found->Ok_0 is None)) && !has_default ==> (
        r matches Err(e) && e@.kind is DeviceUnavailable && e@.backend == "cpal"@),
{
    let seen = result_view(found);
    let chosen = result_view(r);
    assert(seen is Ok <==> found is Ok);
    assert(chosen is Ok <==> r is Ok);
}

/// The failure to get hold of a device names what was tried: to select a device by its id, or to use
/// the default one, for output or for input.
pub proof fn law_missing_device_is_told(
    direction: Direction,
    host: HostFacts,
    sink_id: String,
    found: BackendResult<Option<usize>>,
    r: BackendResult<DeviceChoice>,
)
    requires
        call_ensures(select_device, (direction, &host, &sink_id, false), r),
        direction is Output ==> call_ensures(
            cpal_device_for_id,
            (&host, MediaDeviceInfoKind::AudioOutput, &sink_id),
            found,
        ),
        direction is Input ==> call_ensures(
            cpal_device_for_id,
            (&host, MediaDeviceInfoKind::AudioInput, &sink_id),
            found,
        ),
        sink_id@.len() == 0 || (found is Ok && found->Ok_0 is None),
    ensures
        r is Err,
        direction is Output ==> (r->Err_0)@.message == "No output device available"@,
        direction is Input ==> (r->Err_0)@.message == "No input device available"@,
        (r->Err_0)@.operation == (match direction {
            Direction::Output => if sink_id@.len() == 0 {
                "default_output_device"@
            } else {
                "select_output_device"@
            },
            Direction::Input => if sink_id@.len() == 0 {
                "default_input_device"@
            } else {
                "select_input_device"@
            },
        }),
{
    let seen = result_view(found);
    let chosen = result_view(r);
    assert(seen is Ok <==> found is Ok);
    assert(chosen is Ok <==> r is Ok);
}

/// An id exists as a sink exactly if looking for it among the output devices finds one.
pub proof fn law_sink_exists_if_an_output_device_has_its_id(
    host: HostFacts,
    sink_id: String,
    found: BackendResult<Option<usize>>,
    r: BackendResult<bool>,
)
    requires
        call_ensures(
            cpal_device_for_id,
            (&host, MediaDeviceInfoKind::AudioOutput, &sink_id),
            found,
        ),
        call_ensures(CpalBackend::output_sink_id_exists, (&host, &sink_id), r),
    ensures
        r is Ok <==> found is Ok,
        r matches Ok(exists) ==> exists == (found->Ok_0 is Some),
        r matches Err(e) ==> e@ == (found->Err_0)@,
{
    let seen = result_view(found);
    assert(seen is Ok <==> found is Ok);
    assert(result_view(r) is Ok <==> r is Ok);
}

/// Only a device that is known by the driver name `null` is no audio endpoint. A device that reports
/// no driver, or cannot describe itself, is one.
pub proof fn law_only_null_is_no_endpoint(device: DeviceFacts, r: bool)
    requires
        call_ensures(is_audio_endpoint, (&device,), r),
    ensures
        !r <==> device.description is Ok && device.description->Ok_0.driver is Some
            && device.description->Ok_0.driver->0@ == "null"@,
{
}

/// The channels of a device are those of its default configuration for the direction in question;
/// there are none for video.
pub proof fn law_channels_are_those_of_the_direction(
    device: DeviceFacts,
    input: Option<u16>,
    output: Option<u16>,
    video: Option<u16>,
)
    requires
        call_ensures(cpal_device_channels, (&device, MediaDeviceInfoKind::AudioInput), input),
        call_ensures(cpal_device_channels, (&device, MediaDeviceInfoKind::AudioOutput), output),
        call_ensures(cpal_device_channels, (&device, MediaDeviceInfoKind::VideoInput), video),
    ensures
        input == device.input_channels,
        output == device.output_channels,
        video is None,
{
}

/// Whether a host offers a device for a direction: it is not the `null` device, and has a default
/// configuration for the direction.
pub open spec fn offers(device: DeviceFacts, kind: MediaDeviceInfoKind) -> bool {
    &&& !(device.description is Ok && device.description->Ok_0.driver is Some
        && device.description->Ok_0.driver->0@ == "null"@)
    &&& (kind is AudioInput && device.input_channels is Some) || (kind is AudioOutput
        && device.output_channels is Some)
}

proof fn lemma_offers(device: DeviceFacts, kind: MediaDeviceInfoKind)
    ensures
        is_offered(device, kind) == offers(device, kind),
{
}

proof fn lemma_lookup(devices: Seq<DeviceFacts>, kind: MediaDeviceInfoKind, id: Seq<char>)
    requires
        devices.len() <= usize::MAX,
    ensures
        match lookup(devices, kind, id) {
            Some(Ok(i)) => {
                &&& i < devices.len()
                &&& offers(devices[i as int], kind)
                &&& devices[i as int].description is Ok
                &&& id_of(devices[i as int], kind, offered_ids(devices.take(i as int), kind)) == id
                &&& forall|j: int|
                    0 <= j < i && #[trigger] offers(devices[j], kind)
                        ==> devices[j].description is Ok && id_of(
                        devices[j],
                        kind,
                        offered_ids(devices.take(j), kind),
                    ) != id
            },
            Some(Err(e)) => exists|i: int|
                {
                    &&& 0 <= i < devices.len()
                    &&& #[trigger] offers(devices[i], kind)
                    &&& devices[i].description is Err
                    &&& e == name_error(devices[i])
                    &&& forall|j: int|
                        0 <= j < i && #[trigger] offers(devices[j], kind)
                            ==> devices[j].description is Ok
                },
            None => forall|j: int|
                0 <= j < devices.len() && #[trigger] offers(devices[j], kind)
                    ==> devices[j].description is Ok && id_of(
                    devices[j],
                    kind,
                    offered_ids(devices.take(j), kind),
                ) != id,
        },
    decreases devices.len(),
{
    if devices.len() > 0 {
        let earlier = devices.drop_last();
        let n = earlier.len() as int;
        lemma_lookup(earlier, kind, id);
        assert(devices.take(n) =~= earlier);
        assert forall|j: int| 0 <= j < n implies devices[j] == earlier[j] && devices.take(j)
            == earlier.take(j) by {
            assert(devices.take(j) =~= earlier.take(j));
        }
        match lookup(earlier, kind, id) {
            Some(Ok(i)) => {
                assert(devices[i as int] == earlier[i as int]);
                assert forall|j: int| 0 <= j < i && #[trigger] offers(devices[j], kind) implies
                    devices[j].description is Ok && id_of(
                    devices[j],
                    kind,
                    offered_ids(devices.take(j), kind),
                ) != id by {
                    assert(offers(earlier[j], kind));
                }
            },
            Some(Err(e)) => {
                let i = choose|i: int|
                    {
                        &&& 0 <= i < earlier.len()
                        &&& #[trigger] offers(earlier[i], kind)
                        &&& earlier[i].description is Err
                        &&& e == name_error(earlier[i])
                        &&& forall|j: int|
                            0 <= j < i && #[trigger] offers(earlier[j], kind)
                                ==> earlier[j].description is Ok
                    };
                assert(offers(devices[i], kind));
                assert forall|j: int| 0 <= j < i && #[trigger] offers(devices[j], kind) implies
                    devices[j].description is Ok by {
                    assert(offers(earlier[j], kind));
                }
            },
            None => {
                assert forall|j: int| 0 <= j < n && #[trigger] offers(devices[j], kind) implies
                    devices[j].description is Ok && id_of(
                    devices[j],
                    kind,
                    offered_ids(devices.take(j), kind),
                ) != id by {
                    assert(offers(earlier[j], kind));
                }
                lemma_offers(devices[n], kind);
                assert(devices.last() == devices[n]);
                if is_offered(devices[n], kind) {
                    assert(offers(devices[n], kind));
                }
            },
        }
    }
}

/// The devices that a host has for a direction.
pub open spec fn list_of(host: HostFacts, kind: MediaDeviceInfoKind) -> Result<
    Vec<DeviceFacts>,
    CpalError,
> {
    if kind is AudioInput {
        host.input_devices
    } else {
        host.output_devices
    }
}

/// Looking for an id among the devices of a direction finds a device that the host offers, and that
/// gets this very id behind those before it; none before it has the id.
pub proof fn law_found_device_has_the_id(
    host: HostFacts,
    kind: MediaDeviceInfoKind,
    device_id: String,
    i: usize,
    r: BackendResult<Option<usize>>,
    seen: Vec<String>,
    id: BackendResult<String>,
)
    requires
        call_ensures(cpal_device_for_id, (&host, kind, &device_id), r),
        r matches Ok(Some(found)) && found == i,
        call_ensures(
            cpal_stable_device_id,
            (
                &list_of(host, kind)->Ok_0[i as int],
                kind,
                if kind is AudioInput {
                    list_of(host, kind)->Ok_0[i as int].input_channels->0
                } else {
                    list_of(host, kind)->Ok_0[i as int].output_channels->0
                },
                &seen,
            ),
            id,
        ),
        text_views(seen@) == offered_ids(list_of(host, kind)->Ok_0@.take(i as int), kind),
    ensures
        kind is AudioInput || kind is AudioOutput,
        list_of(host, kind) is Ok,
        i < list_of(host, kind)->Ok_0@.len(),
        offers(list_of(host, kind)->Ok_0@[i as int], kind),
        id matches Ok(text) && text@ == device_id@,
{
    assert(result_view(r) == Ok::<Option<usize>, BackendErrorView>(Some(i)));
    let devices = devices_of(host, kind)->Ok_0;
    assert(devices_of(host, kind) is Ok);
    assert(lookup(devices, kind, device_id@) is Some);
    assert(kind is AudioInput || kind is AudioOutput);
    assert(devices == list_of(host, kind)->Ok_0@);
    assert(list_of(host, kind)->Ok_0.len() <= usize::MAX);
    lemma_lookup(devices, kind, device_id@);
    assert(list_of(host, kind)->Ok_0[i as int] == devices[i as int]);
}

/// Nothing is found for an id only if no device that the host offers gets it, and all of them can
/// tell their names.
pub proof fn law_nothing_is_found_for_an_unknown_id(
    host: HostFacts,
    kind: MediaDeviceInfoKind,
    device_id: String,
    r: BackendResult<Option<usize>>,
    j: int,
)
    requires
        call_ensures(cpal_device_for_id, (&host, kind, &device_id), r),
        r matches Ok(found) && found is None,
        kind is AudioInput || kind is AudioOutput,
        list_of(host, kind) is Ok,
        0 <= j < list_of(host, kind)->Ok_0@.len(),
        offers(list_of(host, kind)->Ok_0@[j], kind),
    ensures
        ({
            let devices = list_of(host, kind)->Ok_0@;
            &&& devices[j].description is Ok
            &&& stable_id(
                kind,
                "cpal"@,
                devices[j].description->Ok_0.name@,
                if kind is AudioInput {
                    devices[j].input_channels->0
                } else {
                    devices[j].output_channels->0
                },
                offered_ids(devices.take(j), kind),
            ) != device_id@
        }),
{
    assert(result_view(r) == Ok::<Option<usize>, BackendErrorView>(None));
    let devices = devices_of(host, kind)->Ok_0;
    assert(list_of(host, kind)->Ok_0.len() <= usize::MAX);
    lemma_lookup(devices, kind, device_id@);
}

/// Looking for an id fails only if the devices cannot be enumerated, or a device that the host offers
/// cannot tell its name; and that is told in the words of the device layer.
pub proof fn law_failed_search_is_told(
    host: HostFacts,
    kind: MediaDeviceInfoKind,
    device_id: String,
    r: BackendResult<Option<usize>>,
)
    requires
        call_ensures(cpal_device_for_id, (&host, kind, &device_id), r),
        r is Err,
    ensures
        kind is AudioInput || kind is AudioOutput,
        list_of(host, kind) matches Err(e) ==> {
            &&& kind is AudioInput ==> tells((r->Err_0)@, "enumerate_input_devices"@, e)
            &&& kind is AudioOutput ==> tells((r->Err_0)@, "enumerate_output_devices"@, e)
        },
        list_of(host, kind) matches Ok(devices) ==> exists|i: int|
            {
                &&& 0 <= i < devices@.len()
                &&& #[trigger] offers(devices@[i], kind)
                &&& devices@[i].description is Err
                &&& tells((r->Err_0)@, "device_name"@, devices@[i].description->Err_0)
            },
{
    assert(result_view(r) == Err::<Option<usize>, BackendErrorView>((r->Err_0)@));
    if list_of(host, kind) is Ok && !(kind is VideoInput) {
        let devices = devices_of(host, kind)->Ok_0;
        assert(list_of(host, kind)->Ok_0.len() <= usize::MAX);
        lemma_lookup(devices, kind, device_id@);
        let e = (r->Err_0)@;
        let i = choose|i: int|
            {
                &&& 0 <= i < devices.len()
                &&& #[trigger] offers(devices[i], kind)
                &&& devices[i].description is Err
                &&& e == name_error(devices[i])
                &&& forall|j: int|
                    0 <= j < i && #[trigger] offers(devices[j], kind)
                        ==> devices[j].description is Ok
            };
        assert(offers(list_of(host, kind)->Ok_0@[i], kind));
    }
}

/// A list of devices that cannot be enumerated makes every search fail.
pub proof fn law_search_needs_an_enumeration(
    host: HostFacts,
    kind: MediaDeviceInfoKind,
    device_id: String,
    r: BackendResult<Option<usize>>,
)
    requires
        call_ensures(cpal_device_for_id, (&host, kind, &device_id), r),
        kind is AudioInput || kind is AudioOutput,
        list_of(host, kind) is Err,
    ensures
        r is Err,
{
    assert(result_view(r) is Err <==> r is Err);
}

proof fn lemma_offered_positions(devices: Seq<DeviceFacts>, kind: MediaDeviceInfoKind, p: int)
    ensures
        offered_positions(devices, kind).contains(p) <==> 0 <= p < devices.len() && offers(
            devices[p],
            kind,
        ),
        forall|i: int, j: int|
            0 <= i < j < offered_positions(devices, kind).len() ==> offered_positions(
                devices,
                kind,
            )[i] < offered_positions(devices, kind)[j],
        forall|i: int|
            0 <= i < offered_positions(devices, kind).len() ==> 0 <= #[trigger] offered_positions(
                devices,
                kind,
            )[i] < devices.len(),
    decreases devices.len(),
{
    if devices.len() > 0 {
        let earlier = devices.drop_last();
        let before = offered_positions(earlier, kind);
        let now = offered_positions(devices, kind);
        lemma_offered_positions(earlier, kind, p);
        lemma_offers(devices.last(), kind);
        if before.contains(p) {
            let i = choose|i: int| 0 <= i < before.len() && before[i] == p;
            assert(now[i] == p);
        }
        if is_offered(devices.last(), kind) {
            assert(now[before.len() as int] == devices.len() - 1);
        }
        if now.contains(p) {
            let i = choose|i: int| 0 <= i < now.len() && now[i] == p;
            if i < before.len() {
                assert(before[i] == p);
                assert(before.contains(p));
            }
        }
    }
}

/// The enumeration lists a device for each one that the host offers for input, and then for each one
/// that it offers for output, in the order of the host: with its kind, its name as the label, and no
/// group.
pub proof fn law_enumeration_lists_what_is_offered(
    host: HostFacts,
    r: BackendResult<Vec<MediaDeviceInfo>>,
    p: int,
    k: int,
)
    requires
        call_ensures(enumerate_devices, (&host,), r),
        r is Ok,
        0 <= k < r->Ok_0@.len(),
    ensures
        ({
            let input = MediaDeviceInfoKind::AudioInput;
            let output = MediaDeviceInfoKind::AudioOutput;
            let inputs = host.input_devices->Ok_0@;
            let outputs = host.output_devices->Ok_0@;
            let first = offered_positions(inputs, input);
            let second = offered_positions(outputs, output);
            let info = r->Ok_0@[k]@;
            &&& host.input_devices is Ok && host.output_devices is Ok
            &&& first.contains(p) <==> 0 <= p < inputs.len() && offers(inputs[p], input)
            &&& second.contains(p) <==> 0 <= p < outputs.len() && offers(outputs[p], output)
            &&& forall|i: int, j: int| 0 <= i < j < first.len() ==> first[i] < first[j]
            &&& forall|i: int, j: int| 0 <= i < j < second.len() ==> second[i] < second[j]
            &&& r->Ok_0@.len() == first.len() + second.len()
            &&& k < first.len() ==> info.kind == input && info.label
                == inputs[first[k]].description->Ok_0.name@
            &&& k >= first.len() ==> info.kind == output && info.label
                == outputs[second[k - first.len()]].description->Ok_0.name@
            &&& info.group_id is None
            &&& gets_id(
                Seq::new(k as nat, |m: int| r->Ok_0@[m]@.device_id),
                info.kind,
                "cpal"@,
                info.label,
                if k < first.len() {
                    inputs[first[k]].input_channels->0
                } else {
                    outputs[second[k - first.len()]].output_channels->0
                },
                info.device_id,
            )
        }),
{
    let list = info_views(r->Ok_0@);
    assert(enumeration(host) == Ok::<_, BackendErrorView>(list));
    assert(list[k] == r->Ok_0@[k]@);
    law_enumerated_devices_are_found(host, k);
    lemma_offered_positions(host.input_devices->Ok_0@, MediaDeviceInfoKind::AudioInput, p);
    lemma_offered_positions(host.output_devices->Ok_0@, MediaDeviceInfoKind::AudioOutput, p);
    let inputs = host.input_devices->Ok_0@;
    let first = listed(inputs, MediaDeviceInfoKind::AudioInput, Seq::empty());
    lemma_listed_have_no_group(inputs, MediaDeviceInfoKind::AudioInput, Seq::empty());
    lemma_listed_have_no_group(
        host.output_devices->Ok_0@,
        MediaDeviceInfoKind::AudioOutput,
        first->Ok_0,
    );
    lemma_ids_of_the_listed(inputs, MediaDeviceInfoKind::AudioInput, Seq::empty());
    lemma_ids_of_the_listed(
        host.output_devices->Ok_0@,
        MediaDeviceInfoKind::AudioOutput,
        first->Ok_0,
    );
    let seen = Seq::new(k as nat, |m: int| r->Ok_0@[m]@.device_id);
    assert(list.take(k).len() == k);
    assert(seen =~= info_ids(list.take(k)));
    if k < first->Ok_0.len() {
        assert(list.take(k) =~= first->Ok_0.take(k));
        assert(list[k] == first->Ok_0[k]);
        lemma_gets_id(
            seen,
            MediaDeviceInfoKind::AudioInput,
            "cpal"@,
            list[k].label,
            inputs[offered_positions(inputs, MediaDeviceInfoKind::AudioInput)[k]].input_channels->0,
        );
    } else {
        let outputs = host.output_devices->Ok_0@;
        let second = offered_positions(outputs, MediaDeviceInfoKind::AudioOutput);
        lemma_gets_id(
            seen,
            MediaDeviceInfoKind::AudioOutput,
            "cpal"@,
            list[k].label,
            outputs[second[k - first->Ok_0.len()]].output_channels->0,
        );
    }
}

/// Whether a device gets an id, behind the ids that others have: a new one, made of what it is, with
/// the lowest index that makes it new.
pub open spec fn gets_id(
    seen: Seq<Seq<char>>,
    kind: MediaDeviceInfoKind,
    host: Seq<char>,
    name: Seq<char>,
    num_channels: u16,
    id: Seq<char>,
) -> bool {
    &&& forall|i: int| 0 <= i < seen.len() ==> #[trigger] seen[i] != id
    &&& exists|index: nat|
        {
            &&& #[trigger] is_device_id(id, kind, host, name, num_channels, index)
            &&& forall|j: nat|
                j < index ==> #[trigger] has_index(seen, kind, host, name, num_channels, j)
        }
}

/// Whether an id of the device with an index is among others.
pub open spec fn has_index(
    seen: Seq<Seq<char>>,
    kind: MediaDeviceInfoKind,
    host: Seq<char>,
    name: Seq<char>,
    num_channels: u16,
    index: nat,
) -> bool {
    exists|i: int|
        0 <= i < seen.len() && is_device_id(
            #[trigger] seen[i],
            kind,
            host,
            name,
            num_channels,
            index,
        )
}

proof fn lemma_gets_id(
    seen: Seq<Seq<char>>,
    kind: MediaDeviceInfoKind,
    host: Seq<char>,
    name: Seq<char>,
    num_channels: u16,
)
    ensures
        gets_id(
            seen,
            kind,
            host,
            name,
            num_channels,
            stable_id(kind, host, name, num_channels, seen),
        ),
{
    let index = first_free(kind, host, name, num_channels, seen);
    let id = stable_id(kind, host, name, num_channels, seen);
    lemma_first_free_exists(kind, host, name, num_channels, seen, 0);
    lemma_is_device_id(kind, host, name, num_channels, index);
    assert forall|j: nat| j < index implies #[trigger] has_index(
        seen,
        kind,
        host,
        name,
        num_channels,
        j,
    ) by {
        let other = device_id_text(kind, host, name, num_channels, j);
        lemma_is_device_id(kind, host, name, num_channels, j);
        assert(seen.contains(other));
        let i = choose|i: int| 0 <= i < seen.len() && seen[i] == other;
        assert(is_device_id(seen[i], kind, host, name, num_channels, j));
    }
    assert(is_device_id(id, kind, host, name, num_channels, index));
}

proof fn lemma_ids_of_the_listed(
    devices: Seq<DeviceFacts>,
    kind: MediaDeviceInfoKind,
    before: Seq<MediaDeviceInfoView>,
)
    requires
        listed(devices, kind, before) is Ok,
    ensures
        ({
            let list = listed(devices, kind, before)->Ok_0;
            let positions = offered_positions(devices, kind);
            &&& list.len() == before.len() + positions.len()
            &&& list.take(before.len() as int) == before
            &&& forall|k: int|
                before.len() <= k < list.len() ==> {
                    let device = devices[positions[k - before.len()]];
                    &&& (#[trigger] list[k]).device_id == id_of(
                        device,
                        kind,
                        info_ids(list.take(k)),
                    )
                    &&& list[k].label == name_of(device)
                    &&& channels_of(device, kind) is Some
                }
        }),
    decreases devices.len(),
{
    let list = listed(devices, kind, before)->Ok_0;
    let positions = offered_positions(devices, kind);
    if devices.len() == 0 {
        assert(list.take(before.len() as int) =~= before);
    } else {
        let earlier = devices.drop_last();
        let shorter = listed(earlier, kind, before)->Ok_0;
        let fewer = offered_positions(earlier, kind);
        lemma_ids_of_the_listed(earlier, kind, before);
        lemma_offered_positions(earlier, kind, 0);
        assert(list.take(before.len() as int) =~= shorter.take(before.len() as int));
        assert forall|k: int| before.len() <= k < list.len() implies {
            let device = devices[positions[k - before.len()]];
            &&& (#[trigger] list[k]).device_id == id_of(device, kind, info_ids(list.take(k)))
            &&& list[k].label == name_of(device)
            &&& channels_of(device, kind) is Some
        } by {
            assert(list.take(k) =~= shorter.take(k));
            if k < shorter.len() {
                assert(list[k] == shorter[k]);
                assert(positions[k - before.len()] == fewer[k - before.len()]);
                assert(devices[fewer[k - before.len()]] == earlier[fewer[k - before.len()]]);
            } else {
                assert(shorter.take(k) =~= shorter);
                assert(positions[k - before.len()] == devices.len() - 1);
            }
        }
    }
}

/// The id of each device that is enumerated is its own, and looking for it finds the very device: one
/// that is offered, with that name.
pub proof fn law_enumerated_device_is_found_by_its_id(
    host: HostFacts,
    r: BackendResult<Vec<MediaDeviceInfo>>,
    k: int,
    other: int,
    id: String,
    found: BackendResult<Option<usize>>,
)
    requires
        call_ensures(enumerate_devices, (&host,), r),
        r is Ok,
        0 <= k < r->Ok_0@.len(),
        0 <= other < r->Ok_0@.len(),
        id@ == r->Ok_0@[k]@.device_id,
        call_ensures(cpal_device_for_id, (&host, r->Ok_0@[k]@.kind, &id), found),
    ensures
        other != k ==> r->Ok_0@[other]@.device_id != r->Ok_0@[k]@.device_id,
        found is Ok,
        found->Ok_0 is Some,
        ({
            let info = r->Ok_0@[k]@;
            let device = list_of(host, info.kind)->Ok_0@[found->Ok_0->0 as int];
            &&& list_of(host, info.kind) is Ok
            &&& found->Ok_0->0 < list_of(host, info.kind)->Ok_0@.len()
            &&& offers(device, info.kind)
            &&& device.description is Ok
            &&& device.description->Ok_0.name@ == info.label
        }),
{
    let list = info_views(r->Ok_0@);
    assert(enumeration(host) == Ok::<_, BackendErrorView>(list));
    assert(list[k] == r->Ok_0@[k]@);
    assert(list[other] == r->Ok_0@[other]@);
    law_enumerated_devices_are_found(host, k);
    law_enumerated_ids_are_distinct(host);
    assert(info_ids(list)[k] == list[k].device_id && info_ids(list)[other] == list[other].device_id);
    let kind = list[k].kind;
    let devices = devices_of(host, kind)->Ok_0;
    let positions = offered_positions(devices, kind);
    lemma_offered_positions(host.input_devices->Ok_0@, MediaDeviceInfoKind::AudioInput, 0);
    lemma_offered_positions(host.output_devices->Ok_0@, MediaDeviceInfoKind::AudioOutput, 0);
    assert(result_view(found) is Ok <==> found is Ok);
    assert(list_of(host, kind)->Ok_0.len() <= usize::MAX);
}

/// An id that is not enumerated for a kind of devices is not found there.
pub proof fn law_id_that_is_not_enumerated_is_not_found(
    host: HostFacts,
    r: BackendResult<Vec<MediaDeviceInfo>>,
    kind: MediaDeviceInfoKind,
    id: String,
    found: BackendResult<Option<usize>>,
)
    requires
        call_ensures(enumerate_devices, (&host,), r),
        r is Ok,
        forall|k: int|
            0 <= k < r->Ok_0@.len() && (#[trigger] r->Ok_0@[k])@.kind == kind
                ==> r->Ok_0@[k]@.device_id != id@,
        call_ensures(cpal_device_for_id, (&host, kind, &id), found),
    ensures
        found matches Ok(position) && position is None,
{
    let list = info_views(r->Ok_0@);
    assert(enumeration(host) == Ok::<_, BackendErrorView>(list));
    assert forall|k: int|
        0 <= k < list.len() && (#[trigger] list[k]).kind == kind implies list[k].device_id != id@ by {
        assert(list[k] == r->Ok_0@[k]@);
    }
    law_unknown_ids_are_not_found(host, kind, id@);
    assert(result_view(found) is Ok <==> found is Ok);
}

proof fn lemma_listed_have_no_group(
    devices: Seq<DeviceFacts>,
    kind: MediaDeviceInfoKind,
    before: Seq<MediaDeviceInfoView>,
)
    requires
        listed(devices, kind, before) is Ok,
        forall|i: int| 0 <= i < before.len() ==> (#[trigger] before[i]).group_id is None,
    ensures
        forall|i: int|
            0 <= i < listed(devices, kind, before)->Ok_0.len() ==> (#[trigger] listed(
                devices,
                kind,
                before,
            )->Ok_0[i]).group_id is None,
    decreases devices.len(),
{
    if devices.len() > 0 {
        lemma_listed_have_no_group(devices.drop_last(), kind, before);
    }
}

proof fn lemma_listed_fails(
    devices: Seq<DeviceFacts>,
    kind: MediaDeviceInfoKind,
    before: Seq<MediaDeviceInfoView>,
)
    ensures
        listed(devices, kind, before) is Err <==> exists|i: int|
            0 <= i < devices.len() && #[trigger] offers(devices[i], kind)
                && devices[i].description is Err,
        listed(devices, kind, before) matches Err(e) ==> exists|i: int|
            0 <= i < devices.len() && #[trigger] offers(devices[i], kind)
                && devices[i].description is Err && e == name_error(devices[i]),
    decreases devices.len(),
{
    if devices.len() > 0 {
        let earlier = devices.drop_last();
        let n = earlier.len() as int;
        lemma_listed_fails(earlier, kind, before);
        lemma_offers(devices[n], kind);
        assert(devices.last() == devices[n]);
        if listed(earlier, kind, before) is Err {
            let e = listed(earlier, kind, before)->Err_0;
            let i = choose|i: int|
                0 <= i < earlier.len() && #[trigger] offers(earlier[i], kind)
                    && earlier[i].description is Err && e == name_error(earlier[i]);
            assert(offers(devices[i], kind));
        } else {
            if exists|i: int|
                0 <= i < devices.len() && #[trigger] offers(devices[i], kind)
                    && devices[i].description is Err {
                let i = choose|i: int|
                    0 <= i < devices.len() && #[trigger] offers(devices[i], kind)
                        && devices[i].description is Err;
                if i < n {
                    assert(offers(earlier[i], kind));
                }
            }
        }
    }
}

/// The enumeration fails exactly if the devices of a direction cannot be listed, or a device that is
/// offered cannot tell its name; and the words are those of the device layer.
pub proof fn law_enumeration_fails_only_for_a_reason(
    host: HostFacts,
    r: BackendResult<Vec<MediaDeviceInfo>>,
)
    requires
        call_ensures(enumerate_devices, (&host,), r),
    ensures
        ({
            let input = MediaDeviceInfoKind::AudioInput;
            let output = MediaDeviceInfoKind::AudioOutput;
            let nameless_input = exists|i: int|
                0 <= i < host.input_devices->Ok_0@.len() && #[trigger] offers(
                    host.input_devices->Ok_0@[i],
                    input,
                ) && host.input_devices->Ok_0@[i].description is Err;
            let nameless_output = exists|i: int|
                0 <= i < host.output_devices->Ok_0@.len() && #[trigger] offers(
                    host.output_devices->Ok_0@[i],
                    output,
                ) && host.output_devices->Ok_0@[i].description is Err;
            &&& r is Err <==> host.input_devices is Err || host.output_devices is Err
                || nameless_input || nameless_output
            &&& host.input_devices is Err ==> tells(
                (r->Err_0)@,
                "enumerate_input_devices"@,
                host.input_devices->Err_0,
            )
            &&& host.input_devices is Ok && host.output_devices is Err ==> tells(
                (r->Err_0)@,
                "enumerate_output_devices"@,
                host.output_devices->Err_0,
            )
            &&& r is Err && host.input_devices is Ok && host.output_devices is Ok
                && nameless_input ==> exists|i: int|
                {
                    &&& 0 <= i < host.input_devices->Ok_0@.len()
                    &&& #[trigger] offers(host.input_devices->Ok_0@[i], input)
                    &&& host.input_devices->Ok_0@[i].description is Err
                    &&& tells(
                        (r->Err_0)@,
                        "device_name"@,
                        host.input_devices->Ok_0@[i].description->Err_0,
                    )
                }
            &&& r is Err && host.input_devices is Ok && host.output_devices is Ok
                && !nameless_input ==> exists|i: int|
                {
                    &&& 0 <= i < host.output_devices->Ok_0@.len()
                    &&& #[trigger] offers(host.output_devices->Ok_0@[i], output)
                    &&& host.output_devices->Ok_0@[i].description is Err
                    &&& tells(
                        (r->Err_0)@,
                        "device_name"@,
                        host.output_devices->Ok_0@[i].description->Err_0,
                    )
                }
        }),
{
    if host.input_devices is Ok && host.output_devices is Ok {
        let inputs = host.input_devices->Ok_0@;
        let outputs = host.output_devices->Ok_0@;
        let first = listed(inputs, MediaDeviceInfoKind::AudioInput, Seq::empty());
        lemma_listed_fails(inputs, MediaDeviceInfoKind::AudioInput, Seq::empty());
        lemma_listed_fails(outputs, MediaDeviceInfoKind::AudioOutput, first->Ok_0);
    }
}

/// A device gets the id that is made of its name and its channels, behind the ids that were given
/// before; or its failure to tell the name is told.
pub proof fn law_id_of_a_device(
    device: DeviceFacts,
    kind: MediaDeviceInfoKind,
    num_channels: u16,
    seen: Vec<String>,
    r: BackendResult<String>,
    id: String,
)
    requires
        call_ensures(cpal_stable_device_id, (&device, kind, num_channels, &seen), r),
        device.description is Ok ==> call_ensures(
            stable_device_id,
            ("cpal", kind, &device.description->Ok_0.name, num_channels, &seen),
            id,
        ),
    ensures
        r is Ok <==> device.description is Ok,
        r matches Ok(text) ==> text@ == id@,
        r matches Err(e) ==> tells(e@, "device_name"@, device.description->Err_0),
{
}

/// A device gets an id that is new, made of what the device is, with the lowest index that makes it
/// so: index zero, unless another device has that id already.
pub proof fn law_id_has_the_lowest_free_index(
    host: &str,
    kind: MediaDeviceInfoKind,
    name: String,
    num_channels: u16,
    seen: Vec<String>,
    r: String,
)
    requires
        call_ensures(stable_device_id, (host, kind, &name, num_channels, &seen), r),
    ensures
        gets_id(
            Seq::new(seen@.len(), |i: int| seen@[i]@),
            kind,
            host@,
            name@,
            num_channels,
            r@,
        ),
{
    let ids = Seq::new(seen@.len(), |i: int| seen@[i]@);
    assert(ids =~= text_views(seen@));
    lemma_gets_id(ids, kind, host@, name@, num_channels);
}

/// A description of a device tells the parts that it was made of.
pub proof fn law_description_tells_its_parts(
    device_id: String,
    group_id: Option<String>,
    kind: MediaDeviceInfoKind,
    label: String,
    r: MediaDeviceInfo,
    told_id: &String,
    told_group: Option<&String>,
    told_kind: MediaDeviceInfoKind,
    told_label: &String,
)
    requires
        call_ensures(MediaDeviceInfo::new, (device_id, group_id, kind, label), r),
        call_ensures(MediaDeviceInfo::device_id, (&r,), told_id),
        call_ensures(MediaDeviceInfo::group_id, (&r,), told_group),
        call_ensures(MediaDeviceInfo::kind, (&r,), told_kind),
        call_ensures(MediaDeviceInfo::label, (&r,), told_label),
    ensures
        told_id@ == device_id@,
        told_group is Some <==> group_id is Some,
        told_group matches Some(g) ==> g@ == group_id->0@,
        told_kind == kind,
        told_label@ == label@,
{
}

/// What a backend enumerates is what the host enumerates.
pub proof fn law_backend_enumerates_the_host(
    host: HostFacts,
    a: BackendResult<Vec<MediaDeviceInfo>>,
    b: BackendResult<Vec<MediaDeviceInfo>>,
)
    requires
        call_ensures(enumerate_devices, (&host,), a),
        call_ensures(CpalBackend::enumerate_devices_sync, (&host,), b),
    ensures
        a is Ok <==> b is Ok,
        a is Ok ==> {
            &&& a->Ok_0@.len() == b->Ok_0@.len()
            &&& forall|i: int|
                0 <= i < a->Ok_0@.len() ==> #[trigger] a->Ok_0@[i]@ == b->Ok_0@[i]@
        },
        a is Err ==> (a->Err_0)@ == (b->Err_0)@,
{
    if a is Ok && b is Ok {
        assert(info_views(a->Ok_0@) == info_views(b->Ok_0@));
        assert(a->Ok_0@.len() == info_views(a->Ok_0@).len());
        assert(b->Ok_0@.len() == info_views(b->Ok_0@).len());
        assert forall|i: int| 0 <= i < a->Ok_0@.len() implies #[trigger] a->Ok_0@[i]@
            == b->Ok_0@[i]@ by {
            assert(info_views(a->Ok_0@)[i] == a->Ok_0@[i]@);
            assert(info_views(b->Ok_0@)[i] == b->Ok_0@[i]@);
        }
    }
}

} // verus!
