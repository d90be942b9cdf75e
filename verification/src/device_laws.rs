//! What holds of the ids of devices: they are distinct, every walk assigns the same ones, and
//! devices that are not offered leave no trace.

use vstd::prelude::*;
use crate::backend::BackendErrorView;
use crate::devices::{
    DeviceFacts, HostFacts, MediaDeviceInfoView, channels_of, described, device_for_id, devices_of,
    enumeration, id_of, info_ids, is_offered, listed, lookup, name_of, offered_ids,
};
use crate::media_devices::{
    MediaDeviceInfoKind, device_id_text, first_free, is_first_free, law_device_ids_are_unambiguous,
    law_stable_id_is_new, lemma_first_free, lemma_first_free_exists,
};

verus! {

/// Whether each of a list of devices is described by an id of its own kind, and that kind is not
/// `kind`.
spec fn of_other_kinds(list: Seq<MediaDeviceInfoView>, kind: MediaDeviceInfoKind) -> bool {
    forall|i: int|
        0 <= i < list.len() ==> (#[trigger] list[i]).kind != kind && has_id_of_its_kind(list[i])
}

/// Whether a device is described by an id of its own kind.
spec fn has_id_of_its_kind(info: MediaDeviceInfoView) -> bool {
    exists|name: Seq<char>, num_channels: u16, index: nat|
        info.device_id == #[trigger] device_id_text(info.kind, "cpal"@, name, num_channels, index)
}

/// Ids of devices of other kinds do not matter.
proof fn lemma_other_kinds_do_not_matter(
    device: DeviceFacts,
    kind: MediaDeviceInfoKind,
    others: Seq<MediaDeviceInfoView>,
    seen: Seq<Seq<char>>,
)
    requires
        of_other_kinds(others, kind),
    ensures
        id_of(device, kind, info_ids(others) + seen) == id_of(device, kind, seen),
{
    let name = name_of(device);
    let num_channels = channels_of(device, kind)->0;
    let all = info_ids(others) + seen;
    assert forall|index: nat|
        all.contains(#[trigger] device_id_text(kind, "cpal"@, name, num_channels, index))
            == seen.contains(device_id_text(kind, "cpal"@, name, num_channels, index)) by {
        let id = device_id_text(kind, "cpal"@, name, num_channels, index);
        if seen.contains(id) {
            let j = choose|j: int| 0 <= j < seen.len() && seen[j] == id;
            assert(all[info_ids(others).len() + j] == id);
        }
        if all.contains(id) && !seen.contains(id) {
            let j = choose|j: int| 0 <= j < all.len() && all[j] == id;
            if j >= others.len() {
                assert(seen[j - others.len()] == id);
            } else {
                let info = others[j];
                assert(info.device_id == id);
                assert(has_id_of_its_kind(info));
                let (n, c, i) = choose|n: Seq<char>, c: u16, i: nat|
                    info.device_id == #[trigger] device_id_text(info.kind, "cpal"@, n, c, i);
                law_device_ids_are_unambiguous(
                    "cpal"@,
                    kind,
                    name,
                    num_channels,
                    index,
                    info.kind,
                    n,
                    c,
                    i,
                );
            }
        }
    }
    assert forall|index: nat|
        is_first_free(kind, "cpal"@, name, num_channels, all, index) == #[trigger] is_first_free(
            kind,
            "cpal"@,
            name,
            num_channels,
            seen,
            index,
        ) by {}
    let index = first_free(kind, "cpal"@, name, num_channels, seen);
    lemma_first_free_exists(kind, "cpal"@, name, num_channels, seen, 0);
    lemma_first_free(kind, "cpal"@, name, num_channels, all, index);
}

/// A list of devices extends the one that it started from, by devices of the right kind, each with
/// the id that it has among the devices of its own list.
proof fn lemma_listed(
    devices: Seq<DeviceFacts>,
    kind: MediaDeviceInfoKind,
    before: Seq<MediaDeviceInfoView>,
)
    requires
        of_other_kinds(before, kind),
        listed(devices, kind, before) is Ok,
    ensures
        ({
            let list = listed(devices, kind, before)->Ok_0;
            &&& before.len() <= list.len()
            &&& list.take(before.len() as int) == before
            &&& info_ids(list) == info_ids(before) + offered_ids(devices, kind)
            &&& forall|k: int|
                before.len() <= k < list.len() ==> (#[trigger] list[k]).kind == kind
                    && has_id_of_its_kind(list[k])
        }),
    decreases devices.len(),
{
    if devices.len() == 0 {
        assert(before.take(before.len() as int) =~= before);
        assert(info_ids(before) + Seq::<Seq<char>>::empty() =~= info_ids(before));
    } else {
        let earlier = devices.drop_last();
        lemma_listed(earlier, kind, before);
        let list = listed(earlier, kind, before)->Ok_0;
        let device = devices.last();
        if is_offered(device, kind) {
            let info = described(device, kind, list);
            let now = list.push(info);
            lemma_other_kinds_do_not_matter(device, kind, before, offered_ids(earlier, kind));
            assert(info_ids(now) =~= info_ids(list).push(info.device_id));
            assert(info.device_id == id_of(device, kind, offered_ids(earlier, kind)));
            assert(info_ids(now) =~= info_ids(before) + offered_ids(devices, kind));
            assert(now.take(before.len() as int) =~= list.take(before.len() as int));
            assert(has_id_of_its_kind(info));
        }
    }
}

/// Whether the ids of a list of devices are distinct.
pub open spec fn distinct_ids(list: Seq<MediaDeviceInfoView>) -> bool {
    info_ids(list).no_duplicates()
}

proof fn lemma_listed_ids_are_distinct(
    devices: Seq<DeviceFacts>,
    kind: MediaDeviceInfoKind,
    before: Seq<MediaDeviceInfoView>,
)
    requires
        distinct_ids(before),
        listed(devices, kind, before) is Ok,
    ensures
        distinct_ids(listed(devices, kind, before)->Ok_0),
    decreases devices.len(),
{
    if devices.len() > 0 {
        let earlier = devices.drop_last();
        lemma_listed_ids_are_distinct(earlier, kind, before);
        let list = listed(earlier, kind, before)->Ok_0;
        let device = devices.last();
        if is_offered(device, kind) {
            let info = described(device, kind, list);
            law_stable_id_is_new(
                kind,
                "cpal"@,
                name_of(device),
                channels_of(device, kind)->0,
                info_ids(list),
            );
            let ids = info_ids(list);
            assert(info_ids(list.push(info)) =~= ids.push(info.device_id));
            assert forall|i: int, j: int|
                0 <= i < ids.len() + 1 && 0 <= j < ids.len() + 1 && i != j implies ids.push(
                info.device_id,
            )[i] != ids.push(info.device_id)[j] by {
                if i == ids.len() {
                    assert(ids.contains(ids[j]));
                } else if j == ids.len() {
                    assert(ids.contains(ids[i]));
                }
            }
        }
    }
}

/// The ids of the devices that a host offers are pairwise distinct.
pub proof fn law_enumerated_ids_are_distinct(host: HostFacts)
    requires
        enumeration(host) is Ok,
    ensures
        distinct_ids(enumeration(host)->Ok_0),
{
    let inputs = devices_of(host, MediaDeviceInfoKind::AudioInput)->Ok_0;
    let outputs = devices_of(host, MediaDeviceInfoKind::AudioOutput)->Ok_0;
    lemma_listed_ids_are_distinct(inputs, MediaDeviceInfoKind::AudioInput, Seq::empty());
    let list = listed(inputs, MediaDeviceInfoKind::AudioInput, Seq::empty())->Ok_0;
    lemma_listed_ids_are_distinct(outputs, MediaDeviceInfoKind::AudioOutput, list);
}

/// The positions of those devices of a list that are offered.
pub open spec fn offered_positions(devices: Seq<DeviceFacts>, kind: MediaDeviceInfoKind) -> Seq<int>
    decreases devices.len(),
{
    if devices.len() == 0 {
        Seq::empty()
    } else {
        let before = offered_positions(devices.drop_last(), kind);
        if is_offered(devices.last(), kind) {
            before.push(devices.len() - 1)
        } else {
            before
        }
    }
}

/// Whether a description was made from the device at a position, and looking for its id finds that
/// very device.
pub open spec fn is_found(devices: Seq<DeviceFacts>, info: MediaDeviceInfoView, position: int) -> bool {
    &&& 0 <= position < devices.len()
    &&& is_offered(devices[position], info.kind)
    &&& devices[position].description is Ok
    &&& info.label == name_of(devices[position])
    &&& info.device_id == id_of(
        devices[position],
        info.kind,
        offered_ids(devices.take(position), info.kind),
    )
    &&& lookup(devices, info.kind, info.device_id) == Some(
        Ok::<usize, BackendErrorView>(position as usize),
    )
}

/// What is found among the first devices is found among all.
proof fn lemma_found_among_more(devices: Seq<DeviceFacts>, info: MediaDeviceInfoView, position: int)
    requires
        devices.len() > 0,
        is_found(devices.drop_last(), info, position),
    ensures
        is_found(devices, info, position),
{
    let earlier = devices.drop_last();
    assert(earlier[position] == devices[position]);
    assert(earlier.take(position) =~= devices.take(position));
}

proof fn lemma_listed_devices_are_found(
    devices: Seq<DeviceFacts>,
    kind: MediaDeviceInfoKind,
    before: Seq<MediaDeviceInfoView>,
)
    requires
        devices.len() <= usize::MAX,
        of_other_kinds(before, kind),
        listed(devices, kind, before) is Ok,
    ensures
        ({
            let list = listed(devices, kind, before)->Ok_0;
            let positions = offered_positions(devices, kind);
            &&& list.len() == before.len() + positions.len()
            &&& forall|k: int|
                before.len() <= k < list.len() ==> is_found(
                    devices,
                    #[trigger] list[k],
                    positions[k - before.len()],
                )
        }),
        forall|id: Seq<char>|
            !offered_ids(devices, kind).contains(id) ==> #[trigger] lookup(devices, kind, id) is None,
    decreases devices.len(),
{
    lemma_listed(devices, kind, before);
    if devices.len() > 0 {
        let earlier = devices.drop_last();
        lemma_listed_devices_are_found(earlier, kind, before);
        lemma_listed(earlier, kind, before);
        let list = listed(earlier, kind, before)->Ok_0;
        let device = devices.last();
        let seen = offered_ids(earlier, kind);
        let now = listed(devices, kind, before)->Ok_0;
        let positions = offered_positions(devices, kind);
        if is_offered(device, kind) {
            let id = id_of(device, kind, seen);
            law_stable_id_is_new(kind, "cpal"@, name_of(device), channels_of(device, kind)->0, seen);
            lemma_other_kinds_do_not_matter(device, kind, before, seen);
            assert(now.last().device_id == id);
            assert(lookup(earlier, kind, id) is None);
            assert(lookup(devices, kind, id) == Some(
                Ok::<usize, BackendErrorView>(earlier.len() as usize),
            ));
            assert(devices.take(devices.len() - 1) =~= earlier);
            assert(is_found(devices, now.last(), devices.len() - 1));
        }
        assert forall|other: Seq<char>| !offered_ids(devices, kind).contains(other) implies
            #[trigger] lookup(devices, kind, other) is None by {
            let ids = offered_ids(devices, kind);
            if is_offered(device, kind) {
                assert(ids[seen.len() as int] == id_of(device, kind, seen));
            }
            if seen.contains(other) {
                let j = choose|j: int| 0 <= j < seen.len() && seen[j] == other;
                assert(ids[j] == other);
            }
            assert(lookup(earlier, kind, other) is None);
        }
        assert forall|k: int| before.len() <= k < now.len() implies is_found(
            devices,
            #[trigger] now[k],
            positions[k - before.len()],
        ) by {
            if k < list.len() {
                assert(now[k] == list[k]);
                lemma_found_among_more(
                    devices,
                    list[k],
                    offered_positions(earlier, kind)[k - before.len()],
                );
            }
        }
    }
}

/// The two parts of an enumeration: what each walk over the devices of one kind finds there.
proof fn lemma_enumeration(host: HostFacts)
    requires
        enumeration(host) is Ok,
    ensures
        ({
            let input = MediaDeviceInfoKind::AudioInput;
            let output = MediaDeviceInfoKind::AudioOutput;
            let inputs = devices_of(host, input)->Ok_0;
            let outputs = devices_of(host, output)->Ok_0;
            let list = enumeration(host)->Ok_0;
            let first = offered_positions(inputs, input);
            let second = offered_positions(outputs, output);
            &&& list.len() == first.len() + second.len()
            &&& forall|k: int|
                0 <= k < first.len() ==> (#[trigger] list[k]).kind == input && is_found(
                    inputs,
                    list[k],
                    first[k],
                )
            &&& forall|k: int|
                first.len() <= k < list.len() ==> (#[trigger] list[k]).kind == output && is_found(
                    outputs,
                    list[k],
                    second[k - first.len()],
                )
            &&& info_ids(list) == offered_ids(inputs, input) + offered_ids(outputs, output)
            &&& offered_ids(inputs, input).len() == first.len()
            &&& forall|id: Seq<char>|
                !offered_ids(inputs, input).contains(id) ==> #[trigger] lookup(
                    inputs,
                    input,
                    id,
                ) is None
            &&& forall|id: Seq<char>|
                !offered_ids(outputs, output).contains(id) ==> #[trigger] lookup(
                    outputs,
                    output,
                    id,
                ) is None
        }),
{
    let input = MediaDeviceInfoKind::AudioInput;
    let output = MediaDeviceInfoKind::AudioOutput;
    let inputs = devices_of(host, input)->Ok_0;
    let outputs = devices_of(host, output)->Ok_0;
    let list = listed(inputs, input, Seq::empty())->Ok_0;
    let all = listed(outputs, output, list)->Ok_0;
    lemma_listed(inputs, input, Seq::empty());
    assert(of_other_kinds(list, output));
    lemma_listed(outputs, output, list);
    assert(inputs.len() <= usize::MAX && outputs.len() <= usize::MAX) by {
        assert(host.input_devices->Ok_0.len() <= usize::MAX);
        assert(host.output_devices->Ok_0.len() <= usize::MAX);
    }
    lemma_listed_devices_are_found(inputs, input, Seq::empty());
    lemma_listed_devices_are_found(outputs, output, list);
    assert(info_ids(list) =~= offered_ids(inputs, input));
    assert(info_ids(list).len() == list.len());
    assert forall|k: int| 0 <= k < list.len() implies (#[trigger] all[k]) == list[k] by {
        assert(all[k] == all.take(list.len() as int)[k]);
    }
}

/// The enumeration lists the devices that are offered, those for input and then those for output,
/// each in the order of its list. Looking for the id of an entry finds the very device that the
/// entry was made from: both walks over the devices assign the same ids.
pub proof fn law_enumerated_devices_are_found(host: HostFacts, k: int)
    requires
        enumeration(host) is Ok,
        0 <= k < enumeration(host)->Ok_0.len(),
    ensures
        ({
            let input = MediaDeviceInfoKind::AudioInput;
            let output = MediaDeviceInfoKind::AudioOutput;
            let list = enumeration(host)->Ok_0;
            let first = offered_positions(devices_of(host, input)->Ok_0, input);
            let second = offered_positions(devices_of(host, output)->Ok_0, output);
            let position = if k < first.len() {
                first[k]
            } else {
                second[k - first.len()]
            };
            let info = list[k];
            &&& list.len() == first.len() + second.len()
            &&& info.kind == (if k < first.len() {
                input
            } else {
                output
            })
            &&& is_found(devices_of(host, info.kind)->Ok_0, info, position)
            &&& device_for_id(host, info.kind, info.device_id) == Ok::<
                Option<usize>,
                BackendErrorView,
            >(Some(position as usize))
        }),
{
    lemma_enumeration(host);
}

/// An id that no entry of the enumeration with that kind carries is the id of no device.
pub proof fn law_unknown_ids_are_not_found(host: HostFacts, kind: MediaDeviceInfoKind, id: Seq<char>)
    requires
        enumeration(host) is Ok,
        forall|k: int|
            0 <= k < enumeration(host)->Ok_0.len() && (#[trigger] enumeration(host)->Ok_0[k]).kind
                == kind ==> enumeration(host)->Ok_0[k].device_id != id,
    ensures
        device_for_id(host, kind, id) == Ok::<Option<usize>, BackendErrorView>(None),
{
    lemma_enumeration(host);
    let list = enumeration(host)->Ok_0;
    let ids = info_ids(list);
    let inputs = devices_of(host, MediaDeviceInfoKind::AudioInput)->Ok_0;
    let outputs = devices_of(host, MediaDeviceInfoKind::AudioOutput)->Ok_0;
    let first = offered_ids(inputs, MediaDeviceInfoKind::AudioInput);
    let second = offered_ids(outputs, MediaDeviceInfoKind::AudioOutput);
    match kind {
        MediaDeviceInfoKind::AudioInput => {
            if first.contains(id) {
                let i = choose|i: int| 0 <= i < first.len() && first[i] == id;
                assert(ids[i] == id);
                assert(list[i].device_id == id);
            }
            assert(lookup(inputs, kind, id) is None);
        },
        MediaDeviceInfoKind::AudioOutput => {
            if second.contains(id) {
                let i = choose|i: int| 0 <= i < second.len() && second[i] == id;
                let k = first.len() + i;
                assert(ids.len() == list.len());
                assert(ids[k] == id);
                assert(ids[k] == list[k].device_id);
            }
            assert(lookup(outputs, kind, id) is None);
        },
        MediaDeviceInfoKind::VideoInput => {},
    }
}

/// There are no devices for video input, whatever the host enumerates.
pub proof fn law_no_video_devices(host: HostFacts, id: Seq<char>)
    ensures
        device_for_id(host, MediaDeviceInfoKind::VideoInput, id) == Ok::<
            Option<usize>,
            BackendErrorView,
        >(None),
{
}

/// A device that is not offered, wherever it stands in the enumeration, does not shift the ids of
/// the others.
pub proof fn law_pseudo_devices_do_not_shift_ids(
    devices: Seq<DeviceFacts>,
    kind: MediaDeviceInfoKind,
    pos: int,
    device: DeviceFacts,
)
    requires
        0 <= pos <= devices.len(),
        !is_offered(device, kind),
    ensures
        offered_ids(devices.insert(pos, device), kind) == offered_ids(devices, kind),
    decreases devices.len(),
{
    let more = devices.insert(pos, device);
    if pos == devices.len() {
        assert(more.drop_last() =~= devices);
    } else {
        law_pseudo_devices_do_not_shift_ids(devices.drop_last(), kind, pos, device);
        assert(more.drop_last() =~= devices.drop_last().insert(pos, device));
        assert(more.last() == devices.last());
    }
}

} // verus!
