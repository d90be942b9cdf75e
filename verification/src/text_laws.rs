//! What the texts say that the library writes.

use vstd::prelude::*;
use crate::media_devices::{DeviceId, MediaDeviceInfoKind, device_id_text};
use crate::offline::SuspendError;
use crate::text::{append_decimal, decimal};

verus! {

/// Whether a character is a decimal digit.
pub open spec fn is_digit(c: char) -> bool {
    '0' as int <= c as int <= '9' as int
}

/// The number that a text of digits stands for.
pub open spec fn value(text: Seq<char>) -> int
    decreases text.len(),
{
    if text.len() == 0 {
        0
    } else {
        10 * value(text.drop_last()) + (text.last() as int - '0' as int)
    }
}

/// Whether a text is a number as people write it: digits that stand for the number, without a zero in
/// front of others.
pub open spec fn writes_number(text: Seq<char>, n: int) -> bool {
    &&& text.len() > 0
    &&& forall|i: int| 0 <= i < text.len() ==> is_digit(#[trigger] text[i])
    &&& value(text) == n
    &&& text.len() > 1 ==> text[0] != '0'
}

pub(crate) proof fn lemma_decimal_writes_number(n: nat)
    ensures
        writes_number(decimal(n), n as int),
        n > 0 ==> decimal(n)[0] != '0',
    decreases n,
{
    let text = decimal(n);
    if n < 10 {
        assert(text.drop_last() =~= Seq::empty());
        assert(value(text.drop_last()) == 0);
        assert(value(text) == text.last() as int - '0' as int);
    } else {
        lemma_decimal_writes_number(n / 10);
        assert(text.drop_last() =~= decimal(n / 10));
        assert forall|i: int| 0 <= i < text.len() implies is_digit(#[trigger] text[i]) by {
            if i < text.len() - 1 {
                assert(text[i] == decimal(n / 10)[i]);
            }
        }
    }
}

/// A number is written behind the text that was there.
pub proof fn law_number_is_appended(text: &mut String, n: usize)
    requires
        call_ensures(append_decimal, (text, n), ()),
    ensures
        exists|added: Seq<char>| #[trigger]
            writes_number(added, n as int) && final(text)@ == old(text)@ + added,
{
    lemma_decimal_writes_number(n as nat);
    assert(writes_number(decimal(n as nat), n as int));
}

/// Each kind of devices has its name.
pub proof fn law_kinds_of_devices_have_names(kind: MediaDeviceInfoKind, r: &'static str)
    requires
        call_ensures(MediaDeviceInfoKind::as_str, (&kind,), r),
    ensures
        kind is VideoInput ==> r@ == "videoinput"@,
        kind is AudioInput ==> r@ == "audioinput"@,
        kind is AudioOutput ==> r@ == "audiooutput"@,
{
}

/// Whether a text is the id of a device: it is made of the kind, the number of channels, the index,
/// the host and the name, in that order and with a colon between them.
pub open spec fn is_device_id(
    text: Seq<char>,
    kind: MediaDeviceInfoKind,
    host: Seq<char>,
    name: Seq<char>,
    num_channels: u16,
    index: nat,
) -> bool {
    exists|channels: Seq<char>, place: Seq<char>|
        {
            &&& #[trigger] writes_number(channels, num_channels as int)
            &&& #[trigger] writes_number(place, index as int)
            &&& text == (match kind {
                MediaDeviceInfoKind::VideoInput => "videoinput"@,
                MediaDeviceInfoKind::AudioInput => "audioinput"@,
                MediaDeviceInfoKind::AudioOutput => "audiooutput"@,
            }) + seq![':'] + channels + seq![':'] + place + seq![':'] + host + seq![':'] + name
        }
}

pub(crate) proof fn lemma_is_device_id(
    kind: MediaDeviceInfoKind,
    host: Seq<char>,
    name: Seq<char>,
    num_channels: u16,
    index: nat,
)
    ensures
        is_device_id(
            device_id_text(kind, host, name, num_channels, index),
            kind,
            host,
            name,
            num_channels,
            index,
        ),
{
    let text = device_id_text(kind, host, name, num_channels, index);
    let channels = decimal(num_channels as nat);
    let place = decimal(index);
    lemma_decimal_writes_number(num_channels as nat);
    lemma_decimal_writes_number(index);
    let kind_name = match kind {
        MediaDeviceInfoKind::VideoInput => "videoinput"@,
        MediaDeviceInfoKind::AudioInput => "audioinput"@,
        MediaDeviceInfoKind::AudioOutput => "audiooutput"@,
    };
    assert(text =~= kind_name + seq![':'] + channels + seq![':'] + place + seq![':'] + host
        + seq![':'] + name);
    assert(writes_number(channels, num_channels as int) && writes_number(place, index as int));
}

/// The id of a device tells all that it is made of.
pub proof fn law_device_id_is_made_of_its_parts(
    kind: MediaDeviceInfoKind,
    host: &str,
    name: String,
    num_channels: u16,
    index: usize,
    r: String,
)
    requires
        call_ensures(DeviceId::as_string, (kind, host, &name, num_channels, index), r),
    ensures
        is_device_id(r@, kind, host@, name@, num_channels, index as nat),
{
    lemma_is_device_id(kind, host@, name@, num_channels, index as nat);
}

/// Each reason to refuse a suspension has a text of its own.
pub proof fn law_refusals_have_texts(e: SuspendError, r: &'static str)
    requires
        call_ensures(SuspendError::message, (&e,), r),
    ensures
        e is NotAfterCurrentTime ==> r@
            == "InvalidStateError: suspendTime cannot be less than or equal to the current time"@,
        e is NotBeforeEnd ==> r@
            == "InvalidStateError: suspendTime cannot be greater than or equal to the total render duration"@,
        e is RenderingStarted ==> r@
            == "InvalidStateError - cannot suspend when rendering has already started"@,
        e is AlreadyScheduled ==> r@
            == "InvalidStateError - cannot suspend multiple times at the same render quantum"@,
{
}

} // verus!
