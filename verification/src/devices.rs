//! Reading what the Bluetooth tools print: the paired devices, the state of
//! one device and the channel of its service.

use vstd::prelude::*;

use crate::platform;
use crate::text;
use crate::text_lemmas;

verus! {

/// The channel that is used where the service search names none.
pub const DEFAULT_CHANNEL: u8 = 9;

/// A list of devices: the address and the name of each.
pub open spec fn device_views(devices: Seq<(String, String)>) -> Seq<(Seq<char>, Seq<char>)> {
    devices.map_values(|d: (String, String)| (d.0@, d.1@))
}

/// Whether a name in lower case is that of a supported model.
pub open spec fn names_model(lower: Seq<char>) -> bool {
    ||| text::has_part(lower, "xm4"@)
    ||| text::has_part(lower, "wh-1000"@)
    ||| text::has_part(lower, "wh-xb900"@)
    ||| text::has_part(lower, "wi-1000"@)
    ||| text::has_part(lower, "wf-1000"@)
    ||| text::has_part(lower, "sony"@)
}

/// The address and the name of the device in a line of the device list: the
/// word `Device`, the address, the words of the name.
pub open spec fn device_line(line: Seq<char>) -> Option<(Seq<char>, Seq<char>)> {
    let words = text::words_of(line);
    if words.len() >= 2 && words[0] == "Device"@ {
        Some((words[1], text::joined(words.skip(2), " "@)))
    } else {
        None
    }
}

/// The devices of supported models in a list of lines, in the order of the
/// lines. A name is looked up in lower case.
pub open spec fn devices_in(lines: Seq<Seq<char>>) -> Seq<(Seq<char>, Seq<char>)>
    decreases lines.len(),
{
    if lines.len() == 0 {
        Seq::empty()
    } else {
        let before = devices_in(lines.drop_last());
        match device_line(lines.last()) {
            Some(d) => if names_model(platform::lowered(d.1)) {
                before.push(d)
            } else {
                before
            },
            None => before,
        }
    }
}

/// The devices of supported models in a device list.
pub open spec fn devices_of(output: Seq<char>) -> Seq<(Seq<char>, Seq<char>)> {
    devices_in(text::lines_of(output))
}

/// The devices in what the device list printed, if it could be had.
pub open spec fn listed_devices(stdout: Option<Seq<u8>>) -> Seq<(Seq<char>, Seq<char>)> {
    match stdout {
        Some(bytes) => devices_of(platform::lossy_text(bytes)),
        None => Seq::empty(),
    }
}

/// The name of the first device with the given address.
pub open spec fn name_of(mac: Seq<char>, devices: Seq<(Seq<char>, Seq<char>)>) -> Option<Seq<char>>
    decreases devices.len(),
{
    if devices.len() == 0 {
        None
    } else if devices[0].0 == mac {
        Some(devices[0].1)
    } else {
        name_of(mac, devices.drop_first())
    }
}

/// How a device is called: by its name if it is listed, else by its address.
pub open spec fn label_for(mac: Seq<char>, devices: Seq<(Seq<char>, Seq<char>)>) -> Seq<char> {
    match name_of(mac, devices) {
        Some(name) => name,
        None => mac,
    }
}

/// Whether a line says that the device is connected.
pub open spec fn says_connected(line: Seq<char>) -> bool {
    "Connected:"@.is_prefix_of(text::trimmed(line)) && "yes"@.is_suffix_of(text::trimmed(line))
}

/// Whether a device description says that the device is connected.
pub open spec fn connected_in(output: Seq<char>) -> bool {
    exists|i: int|
        0 <= i < text::lines_of(output).len() && says_connected(
            #[trigger] text::lines_of(output)[i],
        )
}

/// Whether a device is connected, by what its description printed, if it
/// could be had. Without an address there is no device.
pub open spec fn connected_by(mac: Seq<char>, stdout: Option<Seq<u8>>) -> bool {
    match stdout {
        Some(bytes) => !text::is_blank(mac) && connected_in(platform::lossy_text(bytes)),
        None => false,
    }
}

/// The channel that a line of the service search names.
pub open spec fn channel_in_line(line: Seq<char>) -> Option<u8> {
    if "Channel:"@.is_prefix_of(text::trimmed(line)) {
        platform::byte_value(
            text::trimmed(text::trimmed(line).skip("Channel:"@.len() as int)),
            10,
        )
    } else {
        None
    }
}

/// The first channel that a line names.
pub open spec fn first_channel(lines: Seq<Seq<char>>) -> Option<u8>
    decreases lines.len(),
{
    if lines.len() == 0 {
        None
    } else if channel_in_line(lines[0]) is Some {
        channel_in_line(lines[0])
    } else {
        first_channel(lines.drop_first())
    }
}

/// The channel that a service search found.
pub open spec fn channel_of(output: Seq<char>) -> u8 {
    match first_channel(text::lines_of(output)) {
        Some(n) => n,
        None => DEFAULT_CHANNEL,
    }
}

/// The channel by what the service search printed, if it could be had.
pub open spec fn channel_by(stdout: Option<Seq<u8>>) -> u8 {
    match stdout {
        Some(bytes) => channel_of(platform::lossy_text(bytes)),
        None => DEFAULT_CHANNEL,
    }
}

/// What a program printed, if it could be run.
pub open spec fn printed(stdout: Option<&[u8]>) -> Option<Seq<u8>> {
    match stdout {
        Some(bytes) => Some(bytes@),
        None => None,
    }
}

/// Whether a name in lower case is that of a supported model.
pub fn is_supported_model(lower: &str) -> (answer: bool)
    ensures
        answer == names_model(lower@),
{
    text::contains(lower, "xm4") || text::contains(lower, "wh-1000") || text::contains(
        lower,
        "wh-xb900",
    ) || text::contains(lower, "wi-1000") || text::contains(lower, "wf-1000") || text::contains(
        lower,
        "sony",
    )
}

/// The address and the name of the device in a line of the device list.
pub fn parse_device_line(line: &str) -> (device: Option<(String, String)>)
    ensures
        match device {
            Some(d) => device_line(line@) == Some((d.0@, d.1@)),
            None => device_line(line@) is None,
        },
{
    let words = text::words(line);
    proof {
        assert(text::views(words@).len() == words@.len());
    }
    if words.len() < 2 {
        return None;
    }
    proof {
        assert(text::views(words@)[0] == words@[0]@);
        assert(text::views(words@)[1] == words@[1]@);
    }
    if !text::same(words[0], "Device") {
        return None;
    }
    let mut rest: Vec<&str> = Vec::new();
    let mut i: usize = 2;
    while i < words.len()
        invariant
            2 <= i <= words.len(),
            rest@ == words@.subrange(2, i as int),
        decreases words.len() - i,
    {
        rest.push(words[i]);
        proof {
            assert(words@.subrange(2, i + 1) =~= words@.subrange(2, i as int).push(words@[i as int]));
        }
        i = i + 1;
    }
    proof {
        assert(text::views(rest@) =~= text::views(words@).skip(2));
    }
    Some((words[1].to_string(), text::join(rest.as_slice(), " ")))
}

/// The devices of supported models in what the device list says.
pub fn parse_sony_devices(output: &str) -> (found: Vec<(String, String)>)
    ensures
        device_views(found@) == devices_of(output@),
{
    let list = text::lines(output);
    let ghost lines = text::lines_of(output@);
    let mut found: Vec<(String, String)> = Vec::new();
    let mut i: usize = 0;
    proof {
        assert(device_views(found@) =~= Seq::empty());
        assert(lines.take(0) =~= Seq::empty());
    }
    while i < list.len()
        invariant
            text::views(list@) == lines,
            lines == text::lines_of(output@),
            i <= list.len(),
            device_views(found@) == devices_in(lines.take(i as int)),
        decreases list.len() - i,
    {
        let ghost done = found@;
        proof {
            assert(lines[i as int] == list@[i as int]@);
            assert(lines.take(i + 1).drop_last() =~= lines.take(i as int));
            assert(lines.take(i + 1).last() == lines[i as int]);
        }
        match parse_device_line(list[i]) {
            Some((mac, name)) => {
                let lowered = platform::to_lowercase(name.as_str());
                if is_supported_model(lowered.as_str()) {
                    let ghost d = (mac@, name@);
                    found.push((mac, name));
                    proof {
                        assert(device_views(found@) =~= device_views(done).push(d));
                    }
                }
            },
            None => {},
        }
        i = i + 1;
    }
    proof {
        assert(lines.take(i as int) =~= lines);
    }
    found
}

/// The devices in what the device list printed, if it could be had.
pub fn list_sony_devices(stdout: Option<&[u8]>) -> (found: Vec<(String, String)>)
    ensures
        device_views(found@) == listed_devices(printed(stdout)),
        stdout matches Some(bytes) ==> vstd::utf8::valid_utf8(bytes@) ==> device_views(found@)
            == devices_of(vstd::utf8::decode_utf8(bytes@)),
{
    match stdout {
        Some(bytes) => {
            let output = platform::from_utf8_lossy(bytes);
            parse_sony_devices(output.as_str())
        },
        None => {
            let found: Vec<(String, String)> = Vec::new();
            proof {
                assert(device_views(found@) =~= Seq::empty());
            }
            found
        },
    }
}

/// How a device is called: by its name if it is listed, else by its address.
pub fn device_label(mac: &str, devices: &Vec<(String, String)>) -> (label: String)
    ensures
        label@ == label_for(mac@, device_views(devices@)),
{
    let ghost all = device_views(devices@);
    let mut i: usize = 0;
    proof {
        assert(all.skip(0) =~= all);
    }
    while i < devices.len()
        invariant
            all == device_views(devices@),
            i <= devices.len(),
            name_of(mac@, all) == name_of(mac@, all.skip(i as int)),
        decreases devices.len() - i,
    {
        proof {
            assert(all.skip(i as int)[0] == (devices@[i as int].0@, devices@[i as int].1@));
            assert(all.skip(i as int).drop_first() =~= all.skip(i + 1));
        }
        if text::same(devices[i].0.as_str(), mac) {
            return devices[i].1.clone();
        }
        i = i + 1;
    }
    mac.to_string()
}

/// Whether a device description says that the device is connected.
pub fn description_says_connected(output: &str) -> (answer: bool)
    ensures
        answer == connected_in(output@),
{
    let list = text::lines(output);
    let ghost lines = text::lines_of(output@);
    let mut i: usize = 0;
    while i < list.len()
        invariant
            text::views(list@) == lines,
            lines == text::lines_of(output@),
            i <= list.len(),
            forall|j: int| 0 <= j < i ==> !says_connected(#[trigger] lines[j]),
        decreases list.len() - i,
    {
        proof {
            assert(lines[i as int] == list@[i as int]@);
        }
        let line = text::trim(list[i]);
        if text::starts_with(line, "Connected:") && text::ends_with(line, "yes") {
            assert(says_connected(lines[i as int]));
            return true;
        }
        i = i + 1;
    }
    false
}

/// Whether a device is connected, by what its description printed, if it
/// could be had.
pub fn is_connected(mac: &str, stdout: Option<&[u8]>) -> (answer: bool)
    ensures
        answer == connected_by(mac@, printed(stdout)),
        stdout matches Some(bytes) ==> vstd::utf8::valid_utf8(bytes@) ==> answer == (!text::is_blank(
            mac@,
        ) && connected_in(vstd::utf8::decode_utf8(bytes@))),
{
    if text::blank(mac) {
        return false;
    }
    match stdout {
        Some(bytes) => {
            let output = platform::from_utf8_lossy(bytes);
            description_says_connected(output.as_str())
        },
        None => false,
    }
}

/// The channel that a service search found.
pub fn service_channel(output: &str) -> (channel: u8)
    ensures
        channel == channel_of(output@),
{
    let list = text::lines(output);
    let ghost lines = text::lines_of(output@);
    let mut i: usize = 0;
    proof {
        assert(lines.skip(0) =~= lines);
    }
    while i < list.len()
        invariant
            text::views(list@) == lines,
            lines == text::lines_of(output@),
            i <= list.len(),
            first_channel(lines) == first_channel(lines.skip(i as int)),
        decreases list.len() - i,
    {
        proof {
            assert(lines[i as int] == list@[i as int]@);
            assert(lines.skip(i as int)[0] == lines[i as int]);
            assert(lines.skip(i as int).drop_first() =~= lines.skip(i + 1));
        }
        match text::strip_prefix(text::trim(list[i]), "Channel:") {
            Some(rest) => {
                match platform::parse_u8(text::trim(rest), 10) {
                    Ok(n) => {
                        return n;
                    },
                    Err(_) => {},
                }
            },
            None => {},
        }
        i = i + 1;
    }
    DEFAULT_CHANNEL
}

/// The channel by what the service search printed, if it could be had.
pub fn find_service_channel(stdout: Option<&[u8]>) -> (channel: u8)
    ensures
        channel == channel_by(printed(stdout)),
        stdout matches Some(bytes) ==> vstd::utf8::valid_utf8(bytes@) ==> channel == channel_of(
            vstd::utf8::decode_utf8(bytes@),
        ),
{
    match stdout {
        Some(bytes) => {
            let output = platform::from_utf8_lossy(bytes);
            service_channel(output.as_str())
        },
        None => DEFAULT_CHANNEL,
    }
}

proof fn lemma_devices_concat(a: Seq<Seq<char>>, b: Seq<Seq<char>>)
    ensures
        devices_in(a + b) == devices_in(a) + devices_in(b),
    decreases b.len(),
{
    if b.len() == 0 {
        assert(a + b =~= a);
        assert(devices_in(a) + devices_in(b) =~= devices_in(a));
    } else {
        lemma_devices_concat(a, b.drop_last());
        assert((a + b).drop_last() =~= a + b.drop_last());
        assert(devices_in(a + b) =~= devices_in(a) + devices_in(b));
    }
}

/// Ending the last line of a list does not change its devices.
proof fn lemma_devices_ended(a: Seq<char>)
    ensures
        devices_of(a.push('\n')) == devices_of(a),
{
    let last = text::split_at_char(a, '\n').last();
    let ended = text::ended_lines(a);
    text_lemmas::lemma_lines_ended(a);
    assert(device_line(text::without_carriage_return(last)) == device_line(last));
    assert(ended.push(text::without_carriage_return(last)).drop_last() =~= ended);
    assert(ended.push(last).drop_last() =~= ended);
}

/// The devices of two lists, one below the other, are those of the first and
/// then those of the second, so they come in the order of the list, and what
/// one line says does not depend on the others.
pub proof fn law_devices_in_order(a: Seq<char>, b: Seq<char>)
    ensures
        devices_of(a.push('\n') + b) == devices_of(a) + devices_of(b),
{
    text_lemmas::lemma_lines_concat(a, b);
    lemma_devices_concat(text::lines_of(a.push('\n')), text::lines_of(b));
    lemma_devices_ended(a);
}

/// Every device that is found stands in a line of the list and has the name of
/// a supported model, and every such line is found.
pub proof fn law_devices_found(output: Seq<char>, d: (Seq<char>, Seq<char>))
    ensures
        devices_of(output).contains(d) <==> names_model(platform::lowered(d.1)) && exists|i: int|
            0 <= i < text::lines_of(output).len() && #[trigger] device_line(
                text::lines_of(output)[i],
            ) == Some(d),
{
    lemma_devices_found(text::lines_of(output), d);
}

proof fn lemma_devices_found(lines: Seq<Seq<char>>, d: (Seq<char>, Seq<char>))
    ensures
        devices_in(lines).contains(d) <==> names_model(platform::lowered(d.1)) && exists|i: int|
            0 <= i < lines.len() && #[trigger] device_line(lines[i]) == Some(d),
    decreases lines.len(),
{
    if lines.len() > 0 {
        let front = lines.drop_last();
        let before = devices_in(front);
        let all = devices_in(lines);
        lemma_devices_found(front, d);
        if all.contains(d) {
            let k = choose|k: int| 0 <= k < all.len() && all[k] == d;
            if k < before.len() {
                assert(before[k] == d);
                let i = choose|i: int|
                    0 <= i < front.len() && #[trigger] device_line(front[i]) == Some(d);
                assert(device_line(lines[i]) == Some(d));
            } else {
                assert(device_line(lines[lines.len() - 1]) == Some(d));
            }
        }
        if names_model(platform::lowered(d.1)) && exists|i: int|
            0 <= i < lines.len() && #[trigger] device_line(lines[i]) == Some(d) {
            let i = choose|i: int|
                0 <= i < lines.len() && #[trigger] device_line(lines[i]) == Some(d);
            if i < front.len() {
                assert(device_line(front[i]) == Some(d));
                let k = choose|k: int| 0 <= k < before.len() && before[k] == d;
                assert(all[k] == d);
            } else {
                assert(all.last() == d);
            }
        }
    }
}

/// An address that is found is not empty and holds no white space.
pub proof fn law_addresses_solid(output: Seq<char>, i: int)
    requires
        0 <= i < devices_of(output).len(),
    ensures
        devices_of(output)[i].0.len() > 0,
        forall|j: int|
            0 <= j < devices_of(output)[i].0.len() ==> !text::is_white(
                #[trigger] devices_of(output)[i].0[j],
            ),
        text::trimmed(devices_of(output)[i].0) == devices_of(output)[i].0,
{
    let d = devices_of(output)[i];
    let lines = text::lines_of(output);
    assert(devices_of(output).contains(d));
    law_devices_found(output, d);
    let k = choose|k: int| 0 <= k < lines.len() && #[trigger] device_line(lines[k]) == Some(d);
    text_lemmas::lemma_words_solid(lines[k], 1);
    text_lemmas::lemma_trimmed_same(d.0);
}

/// The first line that names a channel decides, and where none does, it is the
/// default channel: of two outputs, one below the other, the first decides if
/// it names a channel at all.
pub proof fn law_first_channel(a: Seq<char>, b: Seq<char>)
    ensures
        first_channel(text::lines_of(a)) matches Some(n) ==> channel_of(a) == n && channel_of(
            a.push('\n') + b,
        ) == n,
        first_channel(text::lines_of(a)) is None ==> channel_of(a) == DEFAULT_CHANNEL && channel_of(
            a.push('\n') + b,
        ) == channel_of(b),
{
    text_lemmas::lemma_lines_concat(a, b);
    lemma_channel_concat(text::lines_of(a.push('\n')), text::lines_of(b));
    lemma_channel_ended(a);
}

/// Ending the last line of an output does not change its channel.
proof fn lemma_channel_ended(a: Seq<char>)
    ensures
        first_channel(text::lines_of(a.push('\n'))) == first_channel(text::lines_of(a)),
{
    let last = text::split_at_char(a, '\n').last();
    let short = text::without_carriage_return(last);
    let ended = text::ended_lines(a);
    text_lemmas::lemma_lines_ended(a);
    if last.len() > 0 && last.last() == '\r' {
        assert(short.push('\r') =~= last);
        text_lemmas::lemma_trimmed_push(short, '\r');
    }
    assert(channel_in_line(short) == channel_in_line(last));
    assert(last.len() == 0 ==> channel_in_line(last) is None) by {
        reveal_strlit("Channel:");
    }
    reveal_with_fuel(first_channel, 2);
    lemma_channel_concat(ended, seq![short]);
    lemma_channel_concat(ended, seq![last]);
    assert(ended + seq![short] =~= ended.push(short));
    assert(ended + seq![last] =~= ended.push(last));
    assert(seq![short].drop_first() =~= Seq::<Seq<char>>::empty());
    assert(seq![last].drop_first() =~= Seq::<Seq<char>>::empty());
}

proof fn lemma_channel_concat(a: Seq<Seq<char>>, b: Seq<Seq<char>>)
    ensures
        first_channel(a + b) == match first_channel(a) {
            Some(n) => Some(n),
            None => first_channel(b),
        },
    decreases a.len(),
{
    if a.len() == 0 {
        assert(a + b =~= b);
    } else {
        assert((a + b).drop_first() =~= a.drop_first() + b);
        lemma_channel_concat(a.drop_first(), b);
    }
}

/// A device of a list without repeated addresses is called by its name.
pub proof fn law_label_of_listed(devices: Seq<(Seq<char>, Seq<char>)>, i: int)
    requires
        0 <= i < devices.len(),
        forall|j: int| 0 <= j < i ==> (#[trigger] devices[j]).0 != devices[i].0,
    ensures
        label_for(devices[i].0, devices) == devices[i].1,
    decreases devices.len(),
{
    if i > 0 {
        assert(devices[0].0 != devices[i].0);
        let rest = devices.drop_first();
        assert forall|j: int| 0 <= j < i - 1 implies (#[trigger] rest[j]).0 != rest[i - 1].0 by {
            assert(rest[j] == devices[j + 1]);
        }
        law_label_of_listed(rest, i - 1);
    }
}

/// A name that holds the name of a model, or `sony`, anywhere in it is that of a
/// supported model, and no other is.
pub proof fn law_models(before: Seq<char>, after: Seq<char>, lower: Seq<char>)
    ensures
        names_model(before + "xm4"@ + after),
        names_model(before + "wh-1000"@ + after),
        names_model(before + "wh-xb900"@ + after),
        names_model(before + "wi-1000"@ + after),
        names_model(before + "wf-1000"@ + after),
        names_model(before + "sony"@ + after),
        names_model(lower) ==> exists|at: int, part: Seq<char>|
            #![trigger lower.subrange(at, at + part.len())]
            0 <= at <= lower.len() - part.len() && lower.subrange(at, at + part.len()) == part && (
            part == "xm4"@ || part == "wh-1000"@ || part == "wh-xb900"@ || part == "wi-1000"@
                || part == "wf-1000"@ || part == "sony"@),
{
    text_lemmas::law_has_part(lower, "xm4"@, before, after);
    text_lemmas::law_has_part(lower, "wh-1000"@, before, after);
    text_lemmas::law_has_part(lower, "wh-xb900"@, before, after);
    text_lemmas::law_has_part(lower, "wi-1000"@, before, after);
    text_lemmas::law_has_part(lower, "wf-1000"@, before, after);
    text_lemmas::law_has_part(lower, "sony"@, before, after);
    if names_model(lower) {
        let part = if text::has_part(lower, "xm4"@) {
            "xm4"@
        } else if text::has_part(lower, "wh-1000"@) {
            "wh-1000"@
        } else if text::has_part(lower, "wh-xb900"@) {
            "wh-xb900"@
        } else if text::has_part(lower, "wi-1000"@) {
            "wi-1000"@
        } else if text::has_part(lower, "wf-1000"@) {
            "wf-1000"@
        } else {
            "sony"@
        };
        let at = choose|at: int| #[trigger] text::occurs_at(lower, part, at);
        assert(lower.subrange(at, at + part.len()) == part);
    }
}

/// A line whose words are `Device`, an address and a name is a device of that
/// address and that name, if the name is that of a supported model; no other
/// line is a device.
pub proof fn law_device_listed(line: Seq<char>, mac: Seq<char>, name: Seq<Seq<char>>)
    requires
        !line.contains('\n'),
    ensures
        text::words_of(line) == seq!["Device"@, mac] + name ==> device_line(line) == Some(
            (mac, text::joined(name, " "@)),
        ) && devices_of(line) == if names_model(platform::lowered(text::joined(name, " "@))) {
            seq![(mac, text::joined(name, " "@))]
        } else {
            Seq::empty()
        },
        text::words_of(line).len() < 2 || text::words_of(line)[0] != "Device"@ ==> device_line(
            line,
        ) is None && devices_of(line) == Seq::<(Seq<char>, Seq<char>)>::empty(),
{
    text_lemmas::law_lines(line, Seq::empty());
    let words = text::words_of(line);
    if words == seq!["Device"@, mac] + name {
        assert(words[0] == "Device"@);
        assert(words[1] == mac);
        assert(words.skip(2) =~= name);
    }
    if line.len() == 0 {
        assert(line =~= Seq::empty());
        assert(words.len() == 0);
    } else {
        assert(text::lines_of(line).drop_last() =~= Seq::empty());
        assert(devices_in(text::lines_of(line).drop_last()) =~= Seq::empty());
        assert(text::lines_of(line).last() == line);
        if device_line(line) is Some && names_model(platform::lowered((device_line(line)->0).1)) {
            assert(devices_of(line) =~= seq![device_line(line)->0]);
        }
    }
}

/// A device that is not listed is called by its address.
pub proof fn law_label_of_unlisted(mac: Seq<char>, devices: Seq<(Seq<char>, Seq<char>)>)
    requires
        forall|i: int| 0 <= i < devices.len() ==> (#[trigger] devices[i]).0 != mac,
    ensures
        label_for(mac, devices) == mac,
    decreases devices.len(),
{
    if devices.len() > 0 {
        assert(devices[0].0 != mac);
        let rest = devices.drop_first();
        assert forall|i: int| 0 <= i < rest.len() implies (#[trigger] rest[i]).0 != mac by {
            assert(rest[i] == devices[i + 1]);
        }
        law_label_of_unlisted(mac, rest);
    }
}

/// A description says that the device is connected as soon as one of its lines
/// does, wherever that stands.
pub proof fn law_connected_anywhere(a: Seq<char>, b: Seq<char>)
    ensures
        connected_in(a.push('\n') + b) <==> connected_in(a) || connected_in(b),
        !connected_in(Seq::empty()),
{
    text_lemmas::lemma_lines_concat(a, b);
    text_lemmas::lemma_lines_ended(a);
    text_lemmas::law_lines(Seq::empty(), Seq::empty());
    let whole = text::lines_of(a.push('\n') + b);
    let ended = text::lines_of(a.push('\n'));
    let first = text::lines_of(a);
    let second = text::lines_of(b);
    let last = text::split_at_char(a, '\n').last();
    let short = text::without_carriage_return(last);
    if last.len() > 0 && last.last() == '\r' {
        assert(short.push('\r') =~= last);
        text_lemmas::lemma_trimmed_push(short, '\r');
    }
    assert(says_connected(short) == says_connected(last));
    assert(!says_connected(Seq::empty())) by {
        reveal_strlit("Connected:");
    }
    if connected_in(a) {
        let i = choose|i: int| 0 <= i < first.len() && says_connected(#[trigger] first[i]);
        if i < text::ended_lines(a).len() {
            assert(whole[i] == first[i]);
        } else {
            assert(whole[i] == short);
        }
        assert(says_connected(whole[i]));
    }
    if connected_in(b) {
        let i = choose|i: int| 0 <= i < second.len() && says_connected(#[trigger] second[i]);
        assert(whole[ended.len() + i] == second[i]);
    }
    if connected_in(a.push('\n') + b) {
        let i = choose|i: int| 0 <= i < whole.len() && says_connected(#[trigger] whole[i]);
        if i >= ended.len() {
            assert(second[i - ended.len()] == whole[i]);
        } else if i < ended.len() - 1 {
            assert(first[i] == whole[i]);
        } else {
            assert(whole[i] == short);
            if last.len() == 0 {
                assert(last =~= Seq::empty());
            }
            assert(first[i] == last);
        }
    }
}

/// A single line says that the device is connected exactly if, but for the
/// white space around it, it starts with `Connected:` and ends with `yes`.
pub proof fn law_connected_line(
    lead: Seq<char>,
    value: Seq<char>,
    tail: Seq<char>,
    line: Seq<char>,
)
    requires
        forall|i: int| 0 <= i < lead.len() ==> text::is_white(#[trigger] lead[i]),
        forall|i: int| 0 <= i < tail.len() ==> text::is_white(#[trigger] tail[i]),
        !(lead + ("Connected:"@ + value + "yes"@) + tail).contains('\n'),
        !line.contains('\n'),
    ensures
        connected_in(lead + ("Connected:"@ + value + "yes"@) + tail),
        connected_in(line) ==> "Connected:"@.is_prefix_of(text::trimmed(line))
            && "yes"@.is_suffix_of(text::trimmed(line)),
{
    reveal_strlit("Connected:");
    reveal_strlit("yes");
    let body = "Connected:"@ + value + "yes"@;
    let whole = lead + body + tail;
    text_lemmas::law_trimmed(lead, body, tail);
    text_lemmas::law_lines(whole, Seq::empty());
    text_lemmas::law_lines(line, Seq::empty());
    assert("Connected:"@.is_prefix_of(body)) by {
        assert(body.subrange(0, 10) =~= "Connected:"@);
    }
    assert("yes"@.is_suffix_of(body)) by {
        assert(body.subrange(body.len() - 3, body.len() as int) =~= "yes"@);
    }
    assert(says_connected(text::lines_of(whole)[0]));
    if connected_in(line) {
        let i = choose|i: int|
            0 <= i < text::lines_of(line).len() && says_connected(
                #[trigger] text::lines_of(line)[i],
            );
        if line.len() == 0 {
            assert(line =~= Seq::empty());
        }
        assert(text::lines_of(line)[i] == line);
    }
}

/// A single line names a channel exactly if it starts with `Channel:`, but for
/// the white space before it, and goes on with a number that fits; else the
/// channel is nine.
pub proof fn law_channel_line(line: Seq<char>, rest: Seq<char>)
    requires
        !line.contains('\n'),
    ensures
        text::trimmed(line) == "Channel:"@ + rest ==> {
            &&& platform::byte_value(text::trimmed(rest), 10) matches Some(n) ==> first_channel(
                text::lines_of(line),
            ) == Some(n) && channel_of(line) == n
            &&& platform::byte_value(text::trimmed(rest), 10) is None ==> first_channel(
                text::lines_of(line),
            ) is None && channel_of(line) == 9
        },
        !"Channel:"@.is_prefix_of(text::trimmed(line)) ==> first_channel(text::lines_of(line))
            is None && channel_of(line) == 9,
        channel_of(Seq::empty()) == 9,
{
    reveal_strlit("Channel:");
    reveal_with_fuel(first_channel, 2);
    text_lemmas::law_lines(line, Seq::empty());
    if line.len() == 0 {
        assert(line =~= Seq::empty());
        assert(text::trimmed(line).len() == 0);
    } else {
        assert(text::lines_of(line).drop_first() =~= Seq::empty());
        if text::trimmed(line) == "Channel:"@ + rest {
            assert(text::trimmed(line).subrange(0, 8) =~= "Channel:"@);
            assert(text::trimmed(line).skip(8) =~= rest);
        }
    }
}

/// What a program printed is read as the text of its bytes; a program that
/// could not be run lists no device, connects none and names no channel, and
/// without an address nothing is connected.
pub proof fn law_output_read(mac: Seq<char>, bytes: Seq<u8>, stdout: Option<Seq<u8>>)
    ensures
        listed_devices(Some(bytes)) == devices_of(platform::lossy_text(bytes)),
        listed_devices(None) == Seq::<(Seq<char>, Seq<char>)>::empty(),
        channel_by(Some(bytes)) == channel_of(platform::lossy_text(bytes)),
        channel_by(None) == 9,
        connected_by(mac, Some(bytes)) <==> !text::is_blank(mac) && connected_in(
            platform::lossy_text(bytes),
        ),
        !connected_by(mac, None),
        !connected_by(Seq::empty(), stdout),
{
}

/// Devices and outputs are seen as they are handed over.
pub proof fn law_views_kept(list: Seq<(String, String)>, i: int, bytes: &[u8])
    requires
        0 <= i < list.len(),
    ensures
        device_views(list).len() == list.len(),
        device_views(list)[i] == (list[i].0@, list[i].1@),
        printed(Some(bytes)) == Some(bytes@),
        printed(None) is None,
{
}

} // verus!
