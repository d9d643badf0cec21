//! The sound profiles of the headphones and their bytes on the wire.

use vstd::prelude::*;

use crate::text;

verus! {

/// A sound profile of the headphones.
#[derive(Clone, Copy, Debug, PartialEq, Eq, Structural)]
pub enum Profile {
    NoiseCancelling,
    WindNoiseCancelling,
    AmbientSound,
    NoAnc,
}

/// The profiles in the order in which the menu offers them.
pub open spec fn profile_order() -> Seq<Profile> {
    seq![
        Profile::NoiseCancelling,
        Profile::WindNoiseCancelling,
        Profile::AmbientSound,
        Profile::NoAnc,
    ]
}

/// The name under which a profile is stored.
pub open spec fn key_of(p: Profile) -> Seq<char> {
    match p {
        Profile::NoiseCancelling => "noise-cancelling"@,
        Profile::WindNoiseCancelling => "wind-cancelling"@,
        Profile::AmbientSound => "ambient-sound"@,
        Profile::NoAnc => "disable"@,
    }
}

/// The name under which a profile is shown.
pub open spec fn label_of(p: Profile) -> Seq<char> {
    match p {
        Profile::NoiseCancelling => "Cancelación de ruido"@,
        Profile::WindNoiseCancelling => "Reducción de viento"@,
        Profile::AmbientSound => "Sonido ambiente"@,
        Profile::NoAnc => "Sin cancelación (OFF)"@,
    }
}

/// The position of a profile in `profile_order`.
pub open spec fn index_of(p: Profile) -> int {
    match p {
        Profile::NoiseCancelling => 0,
        Profile::WindNoiseCancelling => 1,
        Profile::AmbientSound => 2,
        Profile::NoAnc => 3,
    }
}

/// The body of the command that turns a profile on: a fixed header, whether
/// the effect is on, the noise cancelling mode, the voice flag and the volume
/// of the ambient sound.
pub open spec fn ambient_of(p: Profile) -> Seq<u8> {
    let (effect, mode, volume): (u8, u8, u8) = match p {
        Profile::NoiseCancelling => (16, 2, 0),
        Profile::WindNoiseCancelling => (16, 1, 0),
        Profile::AmbientSound => (16, 0, 19),
        Profile::NoAnc => (0, 0, 0),
    };
    seq![0, 0, 0, 8, 104, 2, effect, 2, mode, 1, 0, volume]
}

/// The sum of a sequence of bytes.
pub open spec fn byte_sum(bytes: Seq<u8>) -> nat
    decreases bytes.len(),
{
    if bytes.len() == 0 {
        0
    } else {
        byte_sum(bytes.drop_last()) + bytes.last() as nat
    }
}

/// The sum of a sequence of bytes, modulo the range of a byte.
pub open spec fn checksum(bytes: Seq<u8>) -> u8 {
    (byte_sum(bytes) % 256) as u8
}

/// What a packet holds between its first byte and its checksum.
pub open spec fn payload_of(p: Profile) -> Seq<u8> {
    seq![12u8, 0u8] + ambient_of(p)
}

/// The packet that turns a profile on.
pub open spec fn packet_of(p: Profile) -> Seq<u8> {
    seq![62u8] + payload_of(p) + seq![checksum(payload_of(p)), 60u8]
}

impl Profile {
    /// The profiles in the order in which the menu offers them.
    pub const ALL: [Profile; 4] = [
        Profile::NoiseCancelling,
        Profile::WindNoiseCancelling,
        Profile::AmbientSound,
        Profile::NoAnc,
    ];

    /// The name under which the profile is stored.
    pub fn key(self) -> (name: &'static str)
        ensures
            name@ == key_of(self),
    {
        match self {
            Profile::NoiseCancelling => "noise-cancelling",
            Profile::WindNoiseCancelling => "wind-cancelling",
            Profile::AmbientSound => "ambient-sound",
            Profile::NoAnc => "disable",
        }
    }

    /// The name under which the profile is shown.
    pub fn label(self) -> (name: &'static str)
        ensures
            name@ == label_of(self),
    {
        match self {
            Profile::NoiseCancelling => "Cancelación de ruido",
            Profile::WindNoiseCancelling => "Reducción de viento",
            Profile::AmbientSound => "Sonido ambiente",
            Profile::NoAnc => "Sin cancelación (OFF)",
        }
    }

    /// The profile that is stored under the name `s`, if there is one.
    pub fn from_key(s: &str) -> (found: Option<Profile>)
        ensures
            forall|p: Profile| found == Some(p) <==> #[trigger] key_of(p) == s@,
    {
        let all = Self::ALL;
        let mut i: usize = 0;
        while i < all.len()
            invariant
                all@ == profile_order(),
                i <= all.len(),
                forall|j: int| 0 <= j < i ==> key_of(#[trigger] profile_order()[j]) != s@,
            decreases all.len() - i,
        {
            if text::same(all[i].key(), s) {
                proof {
                    assert forall|p: Profile| #[trigger] key_of(p) == s@ implies p == all@[i as int] by {
                        law_keys_distinct(p, all@[i as int]);
                    }
                }
                return Some(all[i]);
            }
            i = i + 1;
        }
        assert forall|p: Profile| #[trigger] key_of(p) != s@ by {
            assert(profile_order()[index_of(p)] == p);
        }
        None
    }

    /// The position of the profile in `ALL`.
    pub fn index(self) -> (at: usize)
        ensures
            at == index_of(self),
    {
        let all = Self::ALL;
        let mut i: usize = 0;
        while all[i] != self
            invariant
                all@ == profile_order(),
                i <= index_of(self),
            decreases index_of(self) - i,
        {
            i = i + 1;
        }
        i
    }

    /// The profile at position `i` of `ALL`, or the last one if there are fewer.
    pub fn from_index(i: usize) -> (p: Profile)
        ensures
            p == profile_order()[if i < 3 { i as int } else { 3 }],
    {
        let all = Self::ALL;
        let last: usize = all.len() - 1;
        all[if i < last { i } else { last }]
    }

    /// The body of the command that turns the profile on.
    pub fn ambient_bytes(self) -> (bytes: [u8; 12])
        ensures
            bytes@ == ambient_of(self),
    {
        let (enabled, noise_cancelling, volume, voice): (bool, u8, u8, bool) = match self {
            Profile::NoiseCancelling => (true, 2, 0, false),
            Profile::WindNoiseCancelling => (true, 1, 0, false),
            Profile::AmbientSound => (true, 0, 19, false),
            Profile::NoAnc => (false, 0, 0, false),
        };
        let enabled_value: u8 = if enabled { 16 } else { 0 };
        let voice_value: u8 = if voice { 1 } else { 0 };
        [
            0, 0, 0, 8, 104, 2, enabled_value, 2, noise_cancelling, 1, voice_value, volume,
        ]
    }
}

/// The packet that turns a profile on.
pub fn build_packet(profile: Profile) -> (full: Vec<u8>)
    ensures
        full@ == packet_of(profile),
{
    let mut packet: Vec<u8> = Vec::with_capacity(14);
    packet.push(12);
    packet.push(0);
    packet.extend_from_slice(&profile.ambient_bytes());
    assert(packet@ == payload_of(profile));

    let mut crc: u8 = 0;
    let mut i: usize = 0;
    while i < packet.len()
        invariant
            i <= packet.len(),
            crc == checksum(packet@.take(i as int)),
        decreases packet.len() - i,
    {
        crc = crc.wrapping_add(packet[i]);
        assert(packet@.take(i + 1).drop_last() == packet@.take(i as int));
        i = i + 1;
    }
    assert(packet@.take(i as int) == packet@);

    let mut full: Vec<u8> = Vec::with_capacity(packet.len() + 3);
    full.push(62);
    full.extend_from_slice(packet.as_slice());
    full.push(crc);
    full.push(60);
    full
}

/// A profile is found again under the name it is stored under, and no two
/// profiles share one.
pub proof fn law_keys_distinct(p: Profile, q: Profile)
    ensures
        key_of(p) == key_of(q) <==> p == q,
{
    reveal_strlit("noise-cancelling");
    reveal_strlit("wind-cancelling");
    reveal_strlit("ambient-sound");
    reveal_strlit("disable");
    assert(key_of(p).len() == key_of(q).len() <==> p == q);
}

/// The position of a profile leads back to it, and every position that holds a
/// profile is the position of that profile.
pub proof fn law_index_inverse(p: Profile, i: int)
    ensures
        0 <= index_of(p) < profile_order().len(),
        profile_order()[index_of(p)] == p,
        0 <= i < profile_order().len() ==> index_of(profile_order()[i]) == i,
{
}

/// Every packet has the same frame: a start byte, the length of the command
/// body, the body, the sum of all bytes since the start byte, an end byte.
pub proof fn law_packet_frame(p: Profile)
    ensures
        packet_of(p).len() == 17,
        packet_of(p)[0] == 62,
        packet_of(p)[1] == ambient_of(p).len(),
        packet_of(p).subrange(3, 15) == ambient_of(p),
        packet_of(p)[15] == byte_sum(packet_of(p).subrange(1, 15)) % 256,
        packet_of(p)[16] == 60,
{
    assert(packet_of(p).subrange(3, 15) =~= ambient_of(p));
    assert(packet_of(p).subrange(1, 15) =~= payload_of(p));
}

/// Different profiles have different packets.
pub proof fn law_packets_distinct(p: Profile, q: Profile)
    requires
        packet_of(p) == packet_of(q),
    ensures
        p == q,
{
    law_packet_frame(p);
    law_packet_frame(q);
    assert(ambient_of(p)[6] == ambient_of(q)[6]);
    assert(ambient_of(p)[8] == ambient_of(q)[8]);
}

proof fn lemma_byte_sum(s: Seq<u8>)
    requires
        s.len() == 14,
    ensures
        byte_sum(s) == s[0] + s[1] + s[2] + s[3] + s[4] + s[5] + s[6] + s[7] + s[8] + s[9] + s[10]
            + s[11] + s[12] + s[13],
{
    reveal_with_fuel(byte_sum, 15);
}

/// The bytes that turn each profile on: what differs between them is whether
/// the effect is on, the noise cancelling mode, the volume of the ambient sound,
/// and so the sum.
pub proof fn law_packet_bytes(p: Profile)
    ensures
        p == Profile::NoiseCancelling ==> packet_of(p) == seq![
            62u8, 12, 0, 0, 0, 0, 8, 104, 2, 16, 2, 2, 1, 0, 0, 147, 60,
        ],
        p == Profile::WindNoiseCancelling ==> packet_of(p) == seq![
            62u8, 12, 0, 0, 0, 0, 8, 104, 2, 16, 2, 1, 1, 0, 0, 146, 60,
        ],
        p == Profile::AmbientSound ==> packet_of(p) == seq![
            62u8, 12, 0, 0, 0, 0, 8, 104, 2, 16, 2, 0, 1, 0, 19, 164, 60,
        ],
        p == Profile::NoAnc ==> packet_of(p) == seq![
            62u8, 12, 0, 0, 0, 0, 8, 104, 2, 0, 2, 0, 1, 0, 0, 129, 60,
        ],
{
    lemma_byte_sum(payload_of(p));
}

/// No two profiles are shown under the same name.
pub proof fn law_labels_distinct(p: Profile, q: Profile)
    ensures
        label_of(p) == label_of(q) <==> p == q,
        label_of(p).len() > 0,
        !label_of(p).contains('\n'),
{
    reveal_strlit("Cancelación de ruido");
    reveal_strlit("Reducción de viento");
    reveal_strlit("Sonido ambiente");
    reveal_strlit("Sin cancelación (OFF)");
    assert(label_of(p).len() == label_of(q).len() <==> p == q);
}

} // verus!
