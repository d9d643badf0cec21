//! Bluetooth addresses: as text, as bytes for a socket, and in object paths of
//! the Bluetooth service.

use vstd::prelude::*;

use crate::platform;
use crate::text;
use crate::text_lemmas;

verus! {

/// What reading one part of an address gave, with the text of its failure.
pub open spec fn octet_view(octet: Result<u8, String>) -> Result<u8, Seq<char>> {
    match octet {
        Ok(b) => Ok(b),
        Err(e) => Err(e@),
    }
}

/// What reading the parts of an address gave.
pub open spec fn octet_views(octets: Seq<Result<u8, String>>) -> Seq<Result<u8, Seq<char>>> {
    octets.map_values(|octet: Result<u8, String>| octet_view(octet))
}

/// The first failure in a list, if there is one.
pub open spec fn first_failure(octets: Seq<Result<u8, Seq<char>>>) -> Option<Seq<char>>
    decreases octets.len(),
{
    if octets.len() == 0 {
        None
    } else {
        match (first_failure(octets.drop_last()), octets.last()) {
            (Some(e), _) => Some(e),
            (None, Err(e)) => Some(e),
            (None, Ok(_)) => None,
        }
    }
}

/// The address whose parts were read as given, its bytes in reverse order, as
/// a socket wants them; or the first failure.
pub open spec fn assembled(octets: Seq<Result<u8, Seq<char>>>) -> Result<Seq<u8>, Seq<char>> {
    match first_failure(octets) {
        Some(e) => Err("MAC inválida: "@ + e),
        None => Ok(Seq::new(6, |i: int| octets[5 - i]->Ok_0)),
    }
}

/// The parts of an address as text.
pub open spec fn address_parts(addr: Seq<char>) -> Seq<Seq<char>> {
    text::split_at_char(text::trimmed(addr), ':')
}

/// The address that a text writes: six hexadecimal parts with colons between
/// them, with or without white space around, the bytes in reverse order.
pub open spec fn address_of(addr: Seq<char>) -> Result<Seq<u8>, Seq<char>> {
    if address_parts(addr).len() != 6 {
        Err("MAC inválida: "@ + addr)
    } else {
        assembled(address_parts(addr).map_values(|part: Seq<char>| platform::byte_or_failure(part, 16)))
    }
}

/// The address in an object path, as the path writes it: its last segment is
/// `dev_` and the address, with underscores in place of colons.
pub open spec fn address_in(path: Seq<char>) -> Option<Seq<char>> {
    let segment = text::split_at_char(path, '/').last();
    if "dev_"@.is_prefix_of(segment) {
        Some(text::replaced(segment.skip("dev_"@.len() as int), '_', ':'))
    } else {
        None
    }
}

/// The address in an object path, in lower case.
pub open spec fn mac_of_path(path: Seq<char>) -> Option<Seq<char>> {
    match address_in(path) {
        Some(mac) => Some(platform::lowered(mac)),
        None => None,
    }
}

/// The address whose parts were read as given, or the first failure.
pub fn assemble_address(octets: &Vec<Result<u8, String>>) -> (address: Result<[u8; 6], String>)
    requires
        octets@.len() == 6,
    ensures
        match address {
            Ok(bytes) => assembled(octet_views(octets@)) == Ok::<Seq<u8>, Seq<char>>(bytes@),
            Err(e) => assembled(octet_views(octets@)) == Err::<Seq<u8>, Seq<char>>(e@),
        },
{
    let ghost all = octet_views(octets@);
    let mut bytes: [u8; 6] = [0u8; 6];
    let mut i: usize = 0;
    while i < 6
        invariant
            octets@.len() == 6,
            all == octet_views(octets@),
            i <= 6,
            first_failure(all.take(i as int)) is None,
            forall|j: int| 0 <= j < i ==> all[j] is Ok && bytes@[j] == (#[trigger] all[j])->Ok_0,
        decreases 6 - i,
    {
        proof {
            assert(all.take(i + 1).drop_last() =~= all.take(i as int));
            assert(all.take(i + 1).last() == octet_view(octets@[i as int]));
        }
        match &octets[i] {
            Ok(b) => {
                bytes[i] = *b;
            },
            Err(e) => {
                proof {
                    lemma_failure_stays(all, i + 1);
                }
                return Err("MAC inválida: ".to_string().concat(e.as_str()));
            },
        }
        i = i + 1;
    }
    proof {
        assert(all.take(6) =~= all);
    }
    let mut out: [u8; 6] = [0u8; 6];
    let mut k: usize = 0;
    while k < 6
        invariant
            k <= 6,
            forall|j: int| 0 <= j < k ==> #[trigger] out@[j] == bytes@[5 - j],
        decreases 6 - k,
    {
        out[k] = bytes[5 - k];
        k = k + 1;
    }
    proof {
        assert(out@ =~= Seq::new(6, |j: int| all[5 - j]->Ok_0));
    }
    Ok(out)
}

/// A failure among the first `n` parts is the first failure of all.
proof fn lemma_failure_stays(octets: Seq<Result<u8, Seq<char>>>, n: int)
    requires
        0 <= n <= octets.len(),
        first_failure(octets.take(n)) is Some,
    ensures
        first_failure(octets) == first_failure(octets.take(n)),
    decreases octets.len(),
{
    if n == octets.len() {
        assert(octets.take(n) =~= octets);
    } else {
        assert(octets.drop_last().take(n) =~= octets.take(n));
        lemma_failure_stays(octets.drop_last(), n);
    }
}

/// The bytes of the address that a text writes, in reverse order.
pub fn str2ba(addr: &str) -> (address: Result<[u8; 6], String>)
    ensures
        match address {
            Ok(bytes) => address_of(addr@) == Ok::<Seq<u8>, Seq<char>>(bytes@),
            Err(e) => address_of(addr@) == Err::<Seq<u8>, Seq<char>>(e@),
        },
{
    let parts = text::split(text::trim(addr), ':');
    let ghost pieces = address_parts(addr@);
    proof {
        assert(parts@.len() == pieces.len());
    }
    if parts.len() != 6 {
        return Err("MAC inválida: ".to_string().concat(addr));
    }
    let ghost read = pieces.map_values(|part: Seq<char>| platform::byte_or_failure(part, 16));
    let mut octets: Vec<Result<u8, String>> = Vec::new();
    let mut i: usize = 0;
    while i < parts.len()
        invariant
            text::views(parts@) == pieces,
            read == pieces.map_values(|part: Seq<char>| platform::byte_or_failure(part, 16)),
            i <= parts.len(),
            octet_views(octets@) == read.take(i as int),
        decreases parts.len() - i,
    {
        let ghost done = octets@;
        let octet = platform::parse_u8(parts[i], 16);
        octets.push(octet);
        proof {
            assert(pieces[i as int] == parts@[i as int]@);
            assert(octet_views(octets@) =~= octet_views(done).push(octet_view(octet)));
            assert(read.take(i + 1) =~= read.take(i as int).push(read[i as int]));
        }
        i = i + 1;
    }
    proof {
        assert(read.take(i as int) =~= read);
        assert(octet_views(octets@).len() == octets@.len());
    }
    assemble_address(&octets)
}

/// The address in an object path of the Bluetooth service, as the path writes
/// it.
pub fn address_in_path(path: &str) -> (mac: Option<String>)
    ensures
        match mac {
            Some(m) => address_in(path@) == Some(m@),
            None => address_in(path@) is None,
        },
{
    let segments = text::split(path, '/');
    let segment = segments[segments.len() - 1];
    proof {
        assert(text::views(segments@).last() == segment@);
    }
    match text::strip_prefix(segment, "dev_") {
        Some(rest) => {
            proof {
                reveal_strlit(":");
                assert(":"@ =~= seq![':']);
                text_lemmas::lemma_replaced(rest@, '_', ':');
            }
            Some(text::replace(rest, '_', ":"))
        },
        None => None,
    }
}

/// The address in an object path of the Bluetooth service, in lower case.
pub fn path_to_mac(path: &str) -> (mac: Option<String>)
    ensures
        match mac {
            Some(m) => mac_of_path(path@) == Some(m@),
            None => mac_of_path(path@) is None,
        },
{
    match address_in_path(path) {
        Some(mac) => Some(platform::to_lowercase(mac.as_str())),
        None => None,
    }
}

/// A hexadecimal digit, with letters in upper or lower case.
pub open spec fn hex_digit(n: int, upper: bool) -> char {
    if n < 10 {
        ('0' as u32 + n) as char
    } else if upper {
        ('A' as u32 + n - 10) as char
    } else {
        ('a' as u32 + n - 10) as char
    }
}

/// A byte as two hexadecimal digits.
pub open spec fn octet_text(b: u8, upper: bool) -> Seq<char> {
    seq![hex_digit(b as int / 16, upper), hex_digit(b as int % 16, upper)]
}

/// An address in the usual notation, its bytes in the order in which they are
/// read.
pub open spec fn address_text(bytes: Seq<u8>, upper: bool) -> Seq<char> {
    text::joined(bytes.map_values(|b: u8| octet_text(b, upper)), seq![':'])
}

proof fn lemma_hex_digit(n: int, upper: bool)
    requires
        0 <= n < 16,
    ensures
        platform::digit_value(hex_digit(n, upper)) == n,
        hex_digit(n, upper) != ':',
        hex_digit(n, upper) != '+',
        !text::is_white(hex_digit(n, upper)),
{
}

proof fn lemma_octet_text(b: u8, upper: bool)
    ensures
        platform::byte_value(octet_text(b, upper), 16) == Some(b),
        !octet_text(b, upper).contains(':'),
{
    let t = octet_text(b, upper);
    lemma_hex_digit(b as int / 16, upper);
    lemma_hex_digit(b as int % 16, upper);
    assert(t.drop_last().drop_last().len() == 0);
    assert(platform::number_value(t.drop_last().drop_last(), 16) == 0);
    assert(platform::number_value(t.drop_last(), 16) == b as int / 16);
    assert(platform::number_value(t, 16) == b);
}

proof fn lemma_joined_ends(parts: Seq<Seq<char>>, sep: Seq<char>)
    requires
        parts.len() > 0,
        forall|i: int| 0 <= i < parts.len() ==> (#[trigger] parts[i]).len() > 0,
    ensures
        text::joined(parts, sep).len() > 0,
        text::joined(parts, sep)[0] == parts[0][0],
        text::joined(parts, sep).last() == parts.last().last(),
    decreases parts.len(),
{
    if parts.len() > 1 {
        let front = parts.drop_last();
        assert forall|i: int| 0 <= i < front.len() implies (#[trigger] front[i]).len() > 0 by {
            assert(front[i] == parts[i]);
        }
        lemma_joined_ends(front, sep);
        assert(parts[parts.len() - 1].len() > 0);
    }
}

proof fn lemma_no_failure(octets: Seq<Result<u8, Seq<char>>>)
    requires
        forall|i: int| 0 <= i < octets.len() ==> (#[trigger] octets[i]) is Ok,
    ensures
        first_failure(octets) is None,
    decreases octets.len(),
{
    if octets.len() > 0 {
        assert forall|i: int| 0 <= i < octets.drop_last().len() implies (
        #[trigger] octets.drop_last()[i]) is Ok by {
            assert(octets[i] is Ok);
        }
        lemma_no_failure(octets.drop_last());
        assert(octets[octets.len() - 1] is Ok);
    }
}

/// Every address in the usual notation is read, in upper case or lower case,
/// and gives its bytes in reverse order.
pub proof fn law_address_read(bytes: Seq<u8>, upper: bool)
    requires
        bytes.len() == 6,
    ensures
        address_of(address_text(bytes, upper)) == Ok::<Seq<u8>, Seq<char>>(bytes.reverse()),
{
    let parts = bytes.map_values(|b: u8| octet_text(b, upper));
    let addr = address_text(bytes, upper);
    assert forall|i: int| 0 <= i < parts.len() implies (#[trigger] parts[i]).len() > 0 && !parts[i].contains(
        ':',
    ) && platform::byte_value(parts[i], 16) == Some(bytes[i]) by {
        lemma_octet_text(bytes[i], upper);
    }
    lemma_joined_ends(parts, seq![':']);
    lemma_hex_digit(bytes[0] as int / 16, upper);
    lemma_hex_digit(bytes[5] as int % 16, upper);
    text_lemmas::lemma_trimmed_same(addr);
    text_lemmas::lemma_split_joined(parts, ':');
    let read = parts.map_values(|part: Seq<char>| platform::byte_or_failure(part, 16));
    assert forall|i: int| 0 <= i < read.len() implies (#[trigger] read[i]) == Ok::<u8, Seq<char>>(
        bytes[i],
    ) by {
        assert(platform::byte_value(parts[i], 16) == Some(bytes[i]));
    }
    lemma_no_failure(read);
    assert(Seq::new(6, |i: int| read[5 - i]->Ok_0) =~= bytes.reverse());
}

/// White space around an address changes nothing about the bytes it gives.
pub proof fn law_address_trimmed(a: Seq<char>, b: Seq<char>)
    requires
        text::trimmed(a) == text::trimmed(b),
    ensures
        address_of(a) is Ok <==> address_of(b) is Ok,
        address_of(a) is Ok ==> address_of(a) == address_of(b),
{
}

/// The path under which the Bluetooth service lists an address leads back to
/// that address.
pub proof fn law_path_inverse(root: Seq<char>, mac: Seq<char>)
    requires
        !mac.contains('/'),
        !mac.contains('_'),
    ensures
        address_in(root + "/dev_"@ + text::replaced(mac, ':', '_')) == Some(mac),
        mac_of_path(root + "/dev_"@ + text::replaced(mac, ':', '_')) == Some(
            platform::lowered(mac),
        ),
{
    reveal_strlit("/dev_");
    reveal_strlit("dev_");
    let tail = text::replaced(mac, ':', '_');
    let segment = "dev_"@ + tail;
    let path = root + "/dev_"@ + tail;
    assert(path =~= root.push('/') + segment);
    assert(!segment.contains('/')) by {
        if segment.contains('/') {
            let i = choose|i: int| 0 <= i < segment.len() && segment[i] == '/';
            assert(i >= 4);
            assert(mac[i - 4] == '/');
        }
    }
    text_lemmas::lemma_split_whole(segment, '/');
    text_lemmas::lemma_split_concat(root, segment, '/');
    assert(text::split_at_char(path, '/').last() == segment);
    assert("dev_"@.is_prefix_of(segment));
    assert(segment.skip(4) =~= tail);
    assert(text::replaced(tail, '_', ':') =~= mac) by {
        assert forall|i: int| 0 <= i < mac.len() implies text::replaced(tail, '_', ':')[i] == mac[i] by {
            assert(mac[i] != '_');
        }
    }
}

/// An address is its parts with colons between them, whatever white space is
/// around. It is refused, as it stands, unless there are six parts; each part is
/// read as a hexadecimal number, and the first that is none is reported; else
/// the bytes are those numbers, the last part first.
pub proof fn law_address_parts(
    lead: Seq<char>,
    parts: Seq<Seq<char>>,
    tail: Seq<char>,
    n: int,
)
    requires
        forall|i: int| 0 <= i < lead.len() ==> text::is_white(#[trigger] lead[i]),
        forall|i: int| 0 <= i < tail.len() ==> text::is_white(#[trigger] tail[i]),
        parts.len() > 0,
        forall|i: int| 0 <= i < parts.len() ==> !(#[trigger] parts[i]).contains(':'),
        ({
            let addr = text::joined(parts, seq![':']);
            addr.len() > 0 ==> !text::is_white(addr[0]) && !text::is_white(addr.last())
        }),
    ensures
        ({
            let addr = lead + text::joined(parts, seq![':']) + tail;
            let read = address_of(addr);
            &&& parts.len() != 6 ==> read == Err::<Seq<u8>, Seq<char>>("MAC inválida: "@ + addr)
            &&& parts.len() == 6 && 0 <= n < 6 && platform::byte_value(parts[n], 16) is None && (
            forall|i: int| 0 <= i < n ==> platform::byte_value(#[trigger] parts[i], 16) is Some)
                ==> read == Err::<Seq<u8>, Seq<char>>(
                "MAC inválida: "@ + platform::number_failure(parts[n], 16),
            )
            &&& parts.len() == 6 && (forall|i: int|
                0 <= i < 6 ==> platform::byte_value(#[trigger] parts[i], 16) is Some) ==> {
                &&& read is Ok
                &&& read->Ok_0.len() == 6
                &&& 0 <= n < 6 ==> platform::byte_value(parts[n], 16) == Some(read->Ok_0[5 - n])
            }
        }),
{
    let body = text::joined(parts, seq![':']);
    text_lemmas::law_trimmed(lead, body, tail);
    text_lemmas::lemma_split_joined(parts, ':');
    let octets = parts.map_values(|part: Seq<char>| platform::byte_or_failure(part, 16));
    if parts.len() == 6 {
        if 0 <= n < 6 && platform::byte_value(parts[n], 16) is None && (forall|i: int|
            0 <= i < n ==> platform::byte_value(#[trigger] parts[i], 16) is Some) {
            let before = octets.take(n);
            assert forall|i: int| 0 <= i < before.len() implies (#[trigger] before[i]) is Ok by {
                assert(platform::byte_value(parts[i], 16) is Some);
            }
            lemma_no_failure(before);
            assert(octets.take(n + 1).drop_last() =~= before);
            assert(octets.take(n + 1).last() == octets[n]);
            lemma_failure_stays(octets, n + 1);
        }
        if forall|i: int| 0 <= i < 6 ==> platform::byte_value(#[trigger] parts[i], 16) is Some {
            assert forall|i: int| 0 <= i < octets.len() implies (#[trigger] octets[i]) is Ok by {
                assert(platform::byte_value(parts[i], 16) is Some);
            }
            lemma_no_failure(octets);
            if 0 <= n < 6 {
                assert(octets[n] is Ok);
            }
        }
    }
}

/// What is assembled is what was read, part by part.
pub proof fn law_octet_views(octets: Seq<Result<u8, String>>, i: int)
    requires
        0 <= i < octets.len(),
    ensures
        octet_views(octets).len() == octets.len(),
        octets[i] matches Ok(b) ==> octet_views(octets)[i] == Ok::<u8, Seq<char>>(b),
        octets[i] matches Err(e) ==> octet_views(octets)[i] == Err::<u8, Seq<char>>(e@),
{
}

/// Only the last segment of a path counts. It names a device exactly if it
/// starts with `dev_`, and what follows is the address, with a colon for each
/// underscore, in lower case.
pub proof fn law_path_segment(root: Seq<char>, segment: Seq<char>, i: int)
    requires
        !segment.contains('/'),
    ensures
        address_in(root.push('/') + segment) == address_in(segment),
        mac_of_path(root.push('/') + segment) == mac_of_path(segment),
        mac_of_path(segment) is Some <==> segment.len() >= 4 && segment.take(4) == "dev_"@,
        address_in(segment) is Some <==> segment.len() >= 4 && segment.take(4) == "dev_"@,
        address_in(segment) matches Some(mac) ==> {
            &&& mac_of_path(segment) == Some(platform::lowered(mac))
            &&& mac.len() == segment.len() - 4
            &&& 0 <= i < mac.len() && segment[i + 4] == '_' ==> mac[i] == ':'
            &&& 0 <= i < mac.len() && segment[i + 4] != '_' ==> mac[i] == segment[i + 4]
        },
{
    reveal_strlit("dev_");
    text_lemmas::lemma_split_whole(segment, '/');
    text_lemmas::lemma_split_concat(root, segment, '/');
    let pieces = text::split_at_char(root.push('/') + segment, '/');
    assert(pieces.last() == segment);
    if segment.len() >= 4 {
        assert(segment.take(4) == "dev_"@ <==> "dev_"@.is_prefix_of(segment)) by {
            assert(segment.take(4) =~= segment.subrange(0, 4));
        }
    }
}

/// Six parts that were all read are an address, the last part first; the first
/// that was not is what is reported.
pub proof fn law_assembled(octets: Seq<Result<u8, Seq<char>>>, n: int)
    requires
        octets.len() == 6,
        0 <= n < 6,
    ensures
        (forall|i: int| 0 <= i < 6 ==> (#[trigger] octets[i]) is Ok) ==> {
            &&& assembled(octets) is Ok
            &&& assembled(octets)->Ok_0.len() == 6
            &&& octets[n] == Ok::<u8, Seq<char>>(assembled(octets)->Ok_0[5 - n])
        },
        octets[n] matches Err(e) ==> (forall|i: int| 0 <= i < n ==> (#[trigger] octets[i]) is Ok)
            ==> assembled(octets) == Err::<Seq<u8>, Seq<char>>("MAC inválida: "@ + e),
{
    if forall|i: int| 0 <= i < 6 ==> (#[trigger] octets[i]) is Ok {
        lemma_no_failure(octets);
        assert(octets[n] is Ok);
    }
    if octets[n] is Err && (forall|i: int| 0 <= i < n ==> (#[trigger] octets[i]) is Ok) {
        let before = octets.take(n);
        assert forall|i: int| 0 <= i < before.len() implies (#[trigger] before[i]) is Ok by {
            assert(octets[i] is Ok);
        }
        lemma_no_failure(before);
        assert(octets.take(n + 1).drop_last() =~= before);
        assert(octets.take(n + 1).last() == octets[n]);
        lemma_failure_stays(octets, n + 1);
    }
}

} // verus!
