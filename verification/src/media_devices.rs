//! Audio devices, and the ids under which they are offered.

use vstd::prelude::*;
use vstd::string::*;
use crate::text::{
    append_decimal, decimal, lemma_decimal_has_no_colon, lemma_decimal_is_injective,
    lemma_split_at_colon,
};

verus! {

/// What a media device is for.
#[derive(Clone, Copy, Debug, PartialEq, Eq, Structural)]
pub enum MediaDeviceInfoKind {
    VideoInput,
    AudioInput,
    AudioOutput,
}

/// The name of a kind of devices.
pub open spec fn kind_text(kind: MediaDeviceInfoKind) -> Seq<char> {
    match kind {
        MediaDeviceInfoKind::VideoInput => "videoinput"@,
        MediaDeviceInfoKind::AudioInput => "audioinput"@,
        MediaDeviceInfoKind::AudioOutput => "audiooutput"@,
    }
}

impl MediaDeviceInfoKind {
    /// The name of this kind of devices.
    pub fn as_str(&self) -> (r: &'static str)
        ensures
            r@ == kind_text(*self),
    {
        match *self {
            MediaDeviceInfoKind::VideoInput => "videoinput",
            MediaDeviceInfoKind::AudioInput => "audioinput",
            MediaDeviceInfoKind::AudioOutput => "audiooutput",
        }
    }
}

/// The id of a device. The index tells devices apart that agree in everything else.
pub open spec fn device_id_text(
    kind: MediaDeviceInfoKind,
    host: Seq<char>,
    name: Seq<char>,
    num_channels: u16,
    index: nat,
) -> Seq<char> {
    kind_text(kind) + seq![':'] + (decimal(num_channels as nat) + seq![':'] + (decimal(index)
        + seq![':'] + (host + seq![':'] + name)))
}

/// Ids of devices.
pub struct DeviceId {}

impl DeviceId {
    /// Writes the id of a device.
    pub fn as_string(
        kind: MediaDeviceInfoKind,
        host: &str,
        name: &String,
        num_channels: u16,
        index: usize,
    ) -> (r: String)
        ensures
            r@ == device_id_text(kind, host@, name@, num_channels, index as nat),
    {
        let mut text = String::new();
        proof {
            reveal_strlit(":");
            assert(":"@ =~= seq![':']);
        }
        text.append(kind.as_str());
        text.append(":");
        append_decimal(&mut text, num_channels as usize);
        text.append(":");
        append_decimal(&mut text, index);
        text.append(":");
        text.append(host);
        text.append(":");
        text.append(name.as_str());
        assert(text@ =~= device_id_text(kind, host@, name@, num_channels, index as nat));
        text
    }
}

/// On one host, an id tells everything that it was made of.
pub proof fn law_device_ids_are_unambiguous(
    host: Seq<char>,
    kind: MediaDeviceInfoKind,
    name: Seq<char>,
    num_channels: u16,
    index: nat,
    other_kind: MediaDeviceInfoKind,
    other_name: Seq<char>,
    other_num_channels: u16,
    other_index: nat,
)
    requires
        device_id_text(kind, host, name, num_channels, index) == device_id_text(
            other_kind,
            host,
            other_name,
            other_num_channels,
            other_index,
        ),
    ensures
        kind == other_kind,
        name == other_name,
        num_channels == other_num_channels,
        index == other_index,
{
    reveal_strlit("videoinput");
    reveal_strlit("audioinput");
    reveal_strlit("audiooutput");
    assert(!kind_text(kind).contains(':'));
    assert(!kind_text(other_kind).contains(':'));
    lemma_decimal_has_no_colon(num_channels as nat);
    lemma_decimal_has_no_colon(other_num_channels as nat);
    lemma_decimal_has_no_colon(index);
    lemma_decimal_has_no_colon(other_index);

    let rest3 = host + seq![':'] + name;
    let other3 = host + seq![':'] + other_name;
    let rest2 = decimal(index) + seq![':'] + rest3;
    let other2 = decimal(other_index) + seq![':'] + other3;
    let rest1 = decimal(num_channels as nat) + seq![':'] + rest2;
    let other1 = decimal(other_num_channels as nat) + seq![':'] + other2;
    lemma_split_at_colon(kind_text(kind), rest1, kind_text(other_kind), other1);
    lemma_split_at_colon(
        decimal(num_channels as nat),
        rest2,
        decimal(other_num_channels as nat),
        other2,
    );
    lemma_split_at_colon(decimal(index), rest3, decimal(other_index), other3);
    lemma_decimal_is_injective(num_channels as nat, other_num_channels as nat);
    lemma_decimal_is_injective(index, other_index);
    assert(name =~= rest3.skip(host.len() as int + 1));
    assert(other_name =~= other3.skip(host.len() as int + 1));
    if kind != other_kind {
        assert(kind_text(kind).len() == kind_text(other_kind).len());
        assert(kind_text(kind)[0] == kind_text(other_kind)[0]);
    }
}

/// Whether `index` is the first one with which a device gets an id that no other device has.
pub open spec fn is_first_free(
    kind: MediaDeviceInfoKind,
    host: Seq<char>,
    name: Seq<char>,
    num_channels: u16,
    seen: Seq<Seq<char>>,
    index: nat,
) -> bool {
    &&& !seen.contains(device_id_text(kind, host, name, num_channels, index))
    &&& forall|j: nat|
        j < index ==> seen.contains(#[trigger] device_id_text(kind, host, name, num_channels, j))
}

/// The first index with which a device gets an id that no other device has.
pub open spec fn first_free(
    kind: MediaDeviceInfoKind,
    host: Seq<char>,
    name: Seq<char>,
    num_channels: u16,
    seen: Seq<Seq<char>>,
) -> nat {
    choose|index: nat| #[trigger] is_first_free(kind, host, name, num_channels, seen, index)
}

/// The id that a device gets, after the ids that other devices have.
pub open spec fn stable_id(
    kind: MediaDeviceInfoKind,
    host: Seq<char>,
    name: Seq<char>,
    num_channels: u16,
    seen: Seq<Seq<char>>,
) -> Seq<char> {
    device_id_text(kind, host, name, num_channels, first_free(kind, host, name, num_channels, seen))
}

/// There is only one first index.
pub proof fn lemma_first_free(
    kind: MediaDeviceInfoKind,
    host: Seq<char>,
    name: Seq<char>,
    num_channels: u16,
    seen: Seq<Seq<char>>,
    index: nat,
)
    requires
        is_first_free(kind, host, name, num_channels, seen, index),
    ensures
        first_free(kind, host, name, num_channels, seen) == index,
{
    let other = first_free(kind, host, name, num_channels, seen);
    assert(is_first_free(kind, host, name, num_channels, seen, other));
    if other < index {
        assert(seen.contains(device_id_text(kind, host, name, num_channels, other)));
    } else if index < other {
        assert(seen.contains(device_id_text(kind, host, name, num_channels, index)));
    }
}

/// `seen` cannot hold more of the ids of a device than it holds ids.
proof fn lemma_pigeonhole(
    kind: MediaDeviceInfoKind,
    host: Seq<char>,
    name: Seq<char>,
    num_channels: u16,
    seen: Seq<Seq<char>>,
    count: nat,
)
    requires
        forall|j: nat|
            j < count ==> seen.contains(#[trigger] device_id_text(kind, host, name, num_channels, j)),
    ensures
        count <= seen.len(),
{
    let ids = Seq::new(count, |j: int| device_id_text(kind, host, name, num_channels, j as nat));
    assert(ids.no_duplicates()) by {
        assert forall|a: int, b: int| 0 <= a < count && 0 <= b < count && a != b implies ids[a]
            != ids[b] by {
            if ids[a] == ids[b] {
                law_device_ids_are_unambiguous(
                    host,
                    kind,
                    name,
                    num_channels,
                    a as nat,
                    kind,
                    name,
                    num_channels,
                    b as nat,
                );
            }
        }
    }
    ids.unique_seq_to_set();
    seen.lemma_cardinality_of_set();
    assert(ids.to_set().subset_of(seen.to_set())) by {
        assert forall|id: Seq<char>| ids.to_set().contains(id) implies seen.to_set().contains(id) by {
            let j = choose|j: int| 0 <= j < ids.len() && ids[j] == id;
            assert(seen.contains(device_id_text(kind, host, name, num_channels, j as nat)));
        }
    }
    vstd::set_lib::lemma_len_subset(ids.to_set(), seen.to_set());
}

/// There is a first index.
pub proof fn lemma_first_free_exists(
    kind: MediaDeviceInfoKind,
    host: Seq<char>,
    name: Seq<char>,
    num_channels: u16,
    seen: Seq<Seq<char>>,
    from: nat,
)
    requires
        forall|j: nat|
            j < from ==> seen.contains(#[trigger] device_id_text(kind, host, name, num_channels, j)),
    ensures
        is_first_free(
            kind,
            host,
            name,
            num_channels,
            seen,
            first_free(kind, host, name, num_channels, seen),
        ),
    decreases seen.len() - from,
{
    lemma_pigeonhole(kind, host, name, num_channels, seen, from);
    if seen.contains(device_id_text(kind, host, name, num_channels, from)) {
        lemma_pigeonhole(kind, host, name, num_channels, seen, from + 1);
        lemma_first_free_exists(kind, host, name, num_channels, seen, from + 1);
    } else {
        assert(is_first_free(kind, host, name, num_channels, seen, from));
    }
}

/// The id that a device gets is not one that another device has.
pub proof fn law_stable_id_is_new(
    kind: MediaDeviceInfoKind,
    host: Seq<char>,
    name: Seq<char>,
    num_channels: u16,
    seen: Seq<Seq<char>>,
)
    ensures
        !seen.contains(stable_id(kind, host, name, num_channels, seen)),
{
    lemma_first_free_exists(kind, host, name, num_channels, seen, 0);
}

/// The characters of texts.
pub open spec fn text_views(texts: Seq<String>) -> Seq<Seq<char>> {
    texts.map_values(|s: String| s@)
}

/// Tells whether a list of texts holds a text.
fn contains_text(texts: &Vec<String>, text: &String) -> (r: bool)
    ensures
        r == text_views(texts@).contains(text@),
{
    let mut i: usize = 0;
    while i < texts.len()
        invariant
            i <= texts@.len(),
            forall|j: int| 0 <= j < i ==> (#[trigger] texts@[j])@ != text@,
        decreases texts@.len() - i,
    {
        if texts[i] == *text {
            assert(text_views(texts@)[i as int] == text@);
            return true;
        }
        i += 1;
    }
    proof {
        if text_views(texts@).contains(text@) {
            let j = choose|j: int| 0 <= j < texts@.len() && text_views(texts@)[j] == text@;
            assert(texts@[j]@ == text@);
        }
    }
    false
}

/// Gives a device an id that no device has that was seen before.
pub fn stable_device_id(
    host: &str,
    kind: MediaDeviceInfoKind,
    friendly_name: &String,
    num_channels: u16,
    seen: &Vec<String>,
) -> (r: String)
    ensures
        r@ == stable_id(kind, host@, friendly_name@, num_channels, text_views(seen@)),
        !text_views(seen@).contains(r@),
{
    let ghost ids = text_views(seen@);
    let mut index: usize = 0;
    loop
        invariant
            ids == text_views(seen@),
            index <= seen@.len(),
            forall|j: nat|
                j < index ==> ids.contains(
                    #[trigger] device_id_text(kind, host@, friendly_name@, num_channels, j),
                ),
        decreases seen@.len() - index,
    {
        let device_id = DeviceId::as_string(kind, host, friendly_name, num_channels, index);
        if !contains_text(seen, &device_id) {
            proof {
                assert(is_first_free(
                    kind,
                    host@,
                    friendly_name@,
                    num_channels,
                    ids,
                    index as nat,
                ));
                lemma_first_free(kind, host@, friendly_name@, num_channels, ids, index as nat);
            }
            return device_id;
        }
        proof {
            lemma_pigeonhole(
                kind,
                host@,
                friendly_name@,
                num_channels,
                ids,
                (index + 1) as nat,
            );
            assert(index + 1 <= seen.len());
        }
        index += 1;
    }
}

} // verus!
