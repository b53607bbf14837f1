//! Identity of the protocol, and the packet by which clients and servers find each other.

use std::collections::hash_map::DefaultHasher;
use std::hash::{Hash, Hasher};
use vstd::prelude::*;
use vstd::slice::slice_subrange;
use vstd::std_specs::hash::DefaultHasherAdditionalSpecFns;

use crate::text::{
    decimal, digits, format_decimal, format_hex_padded, hex_padded, law_padding_keeps_the_number,
    value_in,
};
use crate::wire::{le64, le64_at, push_bytes, push_u64_le, read_u64_le, same_bytes};

verus! {

/// Length of a discovery packet: prefix, protocol id and host name.
pub const DISCOVERY_PACKET_LEN: usize = 56;

/// Length of the prefix of a discovery packet.
pub const DISCOVERY_PREFIX_LEN: usize = 16;

/// Length of the host name field of a discovery packet.
pub const HOSTNAME_LEN: usize = 32;

/// Port on which clients and servers find each other.
pub const DISCOVERY_PORT: u16 = 9943;

/// Port of the stream.
pub const STREAM_PORT: u16 = 9944;

/// The prefix of every discovery packet: the four letters `ALVR`, then zeros.
pub open spec fn discovery_prefix() -> Seq<u8> {
    Seq::new(
        DISCOVERY_PREFIX_LEN as nat,
        |i: int|
            if i == 0 {
                0x41u8
            } else if i == 1 {
                0x4cu8
            } else if i == 2 {
                0x56u8
            } else if i == 3 {
                0x52u8
            } else {
                0u8
            },
    )
}

// ---------------------------------------------------------------------------
// Hashing
// ---------------------------------------------------------------------------

/// What hashing a string writes to a hasher.
pub uninterp spec fn str_hash_writes(text: Seq<char>) -> Seq<Seq<u8>>;

/// Calls std's `Hash` for `str`. Claims that hashing appends to what the hasher was given before,
/// and that what it appends is a function of the text.
#[verifier::external_body]
fn feed_text(text: &str, hasher: &mut DefaultHasher)
    ensures
        final(hasher)@ == old(hasher)@ + str_hash_writes(text@),
{
    text.hash(hasher);
}

/// The hash of a text: std's default hasher, from its initial state.
pub open spec fn hash_of(text: Seq<char>) -> u64 {
    DefaultHasher::spec_finish(str_hash_writes(text))
}

/// Hashes a text.
pub fn hash_string(string: &str) -> (hash: u64)
    ensures
        hash == hash_of(string@),
{
    let mut hasher = DefaultHasher::new();
    feed_text(string, &mut hasher);
    assert(hasher@ =~= str_hash_writes(string@));
    hasher.finish()
}

// ---------------------------------------------------------------------------
// Protocol identity
// ---------------------------------------------------------------------------

/// Major version and pre-release tag of a semantic version, where `text` is one.
pub uninterp spec fn semantic_version(text: Seq<char>) -> Option<(u64, Seq<char>)>;

/// Calls `semver::Version::parse` and takes the major version and the pre-release tag from its
/// result. Claims that both, and whether the text is a version at all, are functions of the text.
#[verifier::external_body]
fn parse_version(text: &str) -> (version: Option<(u64, String)>)
    ensures
        match version {
            Some((major, pre)) => semantic_version(text@) == Some((major, pre@)),
            None => semantic_version(text@) is None,
        },
{
    match semver::Version::parse(text) {
        Ok(version) => Some((version.major, version.pre.as_str().to_owned())),
        Err(_) => None,
    }
}

/// The protocol string of a version: the major version of a release, the major version and the
/// tag of a pre-release, and the text itself where it is no version.
pub open spec fn protocol_string(text: Seq<char>, version: Option<(u64, Seq<char>)>) -> Seq<char> {
    match version {
        Some((major, pre)) => if pre.len() == 0 {
            decimal(major as nat)
        } else {
            decimal(major as nat) + "-"@ + pre
        },
        None => text,
    }
}

/// The major version and the tag of a parsed version.
pub open spec fn version_view(version: Option<(u64, String)>) -> Option<(u64, Seq<char>)> {
    match version {
        Some((major, pre)) => Some((major, pre@)),
        None => None,
    }
}

/// Writes the protocol string of a version that was parsed to `version`.
pub fn protocol_string_of(text: &str, version: &Option<(u64, String)>) -> (protocol: String)
    ensures
        protocol@ == protocol_string(text@, version_view(*version)),
{
    match version {
        Some((major, pre)) => {
            let mut protocol: String = format_decimal(*major as u128);
            if !pre.as_str().is_empty() {
                protocol.append("-");
                protocol.append(pre.as_str());
            }
            protocol
        },
        None => text.to_owned(),
    }
}

/// Derives the protocol string from a version: only the major version of a stable release
/// ("20"), with the tag of a pre-release ("20-alpha.1").
pub fn alvr_protocol_string(version_string: &str) -> (protocol: String)
    ensures
        protocol@ == protocol_string(version_string@, semantic_version(version_string@)),
{
    let version = parse_version(version_string);
    protocol_string_of(version_string, &version)
}

/// Identifies a protocol version on the wire.
#[derive(Clone, Copy, Debug, PartialEq, Eq, Hash)]
pub struct ProtocolId(pub [u8; 8]);

impl ProtocolId {
    /// The number that the bytes encode.
    pub open spec fn number(self) -> int {
        le64_at(self.0@, 0)
    }

    /// The id of a version: the hash of its protocol string.
    pub fn from_version(version: &str) -> (id: Self)
        ensures
            id.0@ == le64(hash_of(protocol_string(version@, semantic_version(version@)))),
            id.number() == hash_of(protocol_string(version@, semantic_version(version@))),
    {
        let protocol: String = alvr_protocol_string(version);
        ProtocolId::from_u64(hash_string(protocol.as_str()))
    }

    /// The id with the given number.
    pub fn from_u64(number: u64) -> (id: Self)
        ensures
            id.0@ == le64(number),
            id.number() == number,
    {
        let mut bytes: Vec<u8> = Vec::new();
        push_u64_le(&mut bytes, number);
        let id = [
            bytes[0],
            bytes[1],
            bytes[2],
            bytes[3],
            bytes[4],
            bytes[5],
            bytes[6],
            bytes[7],
        ];
        proof {
            assert(id@ =~= le64(number));
            assert(id@.subrange(0, 8) =~= id@);
            crate::wire::lemma_le64_round_trip(number, id@, 0);
        }
        ProtocolId(id)
    }

    /// The id's bytes.
    pub fn as_bytes(self) -> (bytes: [u8; 8])
        ensures
            bytes == self.0,
    {
        self.0
    }

    /// The id's number.
    pub fn as_u64(self) -> (number: u64)
        ensures
            number == self.number(),
    {
        read_u64_le(vstd::array::array_as_slice(&self.0), 0)
    }

    /// The id in hexadecimal, two digits for each byte.
    pub fn to_text(self) -> (text: String)
        ensures
            text@ == hex_bytes(self.0@),
    {
        format_bytes(vstd::array::array_as_slice(&self.0))
    }
}

/// Bytes in lower-case hexadecimal, two digits each, without separators.
pub open spec fn hex_bytes(bytes: Seq<u8>) -> Seq<char>
    decreases bytes.len(),
{
    if bytes.len() == 0 {
        Seq::empty()
    } else {
        hex_bytes(bytes.drop_last()) + hex_padded(bytes.last() as nat, 2)
    }
}

fn format_bytes(bytes: &[u8]) -> (text: String)
    ensures
        text@ == hex_bytes(bytes@),
{
    let mut text: String = String::new();
    let mut index: usize = 0;
    while index < bytes.len()
        invariant
            index <= bytes@.len(),
            text@ == hex_bytes(bytes@.take(index as int)),
        decreases bytes@.len() - index,
    {
        let pair: String = format_hex_padded(bytes[index] as u64, 2);
        text.append(pair.as_str());
        proof {
            assert(bytes@.take(index + 1).drop_last() =~= bytes@.take(index as int));
        }
        index = index + 1;
    }
    assert(bytes@.take(bytes@.len() as int) =~= bytes@);
    text
}

// ---------------------------------------------------------------------------
// Discovery packets
// ---------------------------------------------------------------------------

/// The packet by which clients and servers find each other.
#[derive(Clone, Debug, PartialEq, Eq)]
pub struct DiscoveryPacket {
    pub protocol_id: ProtocolId,
    pub hostname: String,
}

/// A host name field: the name's bytes, cut off at the field's length, then zeros.
pub open spec fn hostname_field(bytes: Seq<u8>) -> Seq<u8> {
    Seq::new(
        HOSTNAME_LEN as nat,
        |i: int|
            if i < bytes.len() {
                bytes[i]
            } else {
                0u8
            },
    )
}

/// The bytes of a field in front of its first zero.
pub open spec fn until_zero(field: Seq<u8>) -> Seq<u8>
    decreases field.len(),
{
    if field.len() == 0 || field[0] == 0 {
        Seq::empty()
    } else {
        seq![field[0]] + until_zero(field.skip(1))
    }
}

/// A discovery packet on the wire.
pub open spec fn discovery_bytes(id: Seq<u8>, hostname: Seq<char>) -> Seq<u8> {
    discovery_prefix() + id + hostname_field(vstd::utf8::encode_utf8(hostname))
}

/// Bytes that are a discovery packet: long enough, with the prefix, and with a host name in
/// UTF-8. What follows the packet does not matter.
pub open spec fn is_discovery(bytes: Seq<u8>) -> bool {
    &&& bytes.len() >= DISCOVERY_PACKET_LEN
    &&& bytes.subrange(0, 16) == discovery_prefix()
    &&& vstd::utf8::valid_utf8(until_zero(bytes.subrange(24, 56)))
}

/// The bytes of a host name field.
pub fn normalize_hostname(hostname: &str) -> (field: [u8; 32])
    ensures
        field@ == hostname_field(vstd::utf8::encode_utf8(hostname@)),
{
    let bytes = hostname.as_bytes();
    let mut field: [u8; 32] = [0u8; 32];
    let mut index: usize = 0;
    while index < 32 && index < bytes.len()
        invariant
            index <= 32,
            index <= bytes@.len(),
            bytes@ == vstd::utf8::encode_utf8(hostname@),
            forall|i: int|
                0 <= i < 32 ==> #[trigger] field@[i] == if i < index {
                    bytes@[i]
                } else {
                    0u8
                },
        decreases 32 - index,
    {
        let byte: u8 = bytes[index];
        field[index] = byte;
        index = index + 1;
    }
    assert(field@ =~= hostname_field(bytes@));
    field
}

/// Calls `String::from_utf8`. It takes exactly the byte sequences that are valid UTF-8, and the
/// string it makes consists of the characters that they encode.
#[verifier::external_body]
fn text_from_utf8(bytes: Vec<u8>) -> (text: Option<String>)
    ensures
        match text {
            Some(text) => vstd::utf8::valid_utf8(bytes@) && text@ == vstd::utf8::decode_utf8(bytes@),
            None => !vstd::utf8::valid_utf8(bytes@),
        },
{
    String::from_utf8(bytes).ok()
}

fn take_until_zero(field: &[u8]) -> (head: Vec<u8>)
    ensures
        head@ == until_zero(field@),
{
    let mut head: Vec<u8> = Vec::new();
    let mut index: usize = 0;
    assert(field@.skip(0) =~= field@);
    while index < field.len() && field[index] != 0
        invariant
            index <= field@.len(),
            head@ + until_zero(field@.skip(index as int)) == until_zero(field@),
        decreases field@.len() - index,
    {
        let ghost rest = field@.skip(index as int);
        head.push(field[index]);
        proof {
            assert(rest.skip(1) =~= field@.skip(index + 1));
            assert(head@ + until_zero(field@.skip(index + 1)) =~= until_zero(field@));
        }
        index = index + 1;
    }
    assert(head@ =~= until_zero(field@));
    head
}

fn push_discovery_prefix(out: &mut Vec<u8>)
    ensures
        final(out)@ == old(out)@ + discovery_prefix(),
{
    out.push(0x41);
    out.push(0x4c);
    out.push(0x56);
    out.push(0x52);
    let mut index: usize = 4;
    while index < DISCOVERY_PREFIX_LEN
        invariant
            4 <= index <= DISCOVERY_PREFIX_LEN,
            out@ =~= old(out)@ + discovery_prefix().take(index as int),
        decreases DISCOVERY_PREFIX_LEN - index,
    {
        out.push(0);
        index = index + 1;
    }
    assert(out@ =~= old(out)@ + discovery_prefix());
}

impl DiscoveryPacket {
    /// Writes the packet.
    pub fn encode(&self) -> (bytes: Vec<u8>)
        ensures
            bytes@ == discovery_bytes(self.protocol_id.0@, self.hostname@),
            bytes@.len() == DISCOVERY_PACKET_LEN,
    {
        let mut bytes: Vec<u8> = Vec::with_capacity(DISCOVERY_PACKET_LEN);
        push_discovery_prefix(&mut bytes);
        let id = self.protocol_id.as_bytes();
        push_bytes(&mut bytes, vstd::array::array_as_slice(&id));
        let hostname = normalize_hostname(self.hostname.as_str());
        push_bytes(&mut bytes, vstd::array::array_as_slice(&hostname));
        assert(bytes@ =~= discovery_bytes(self.protocol_id.0@, self.hostname@));
        bytes
    }

    /// Reads a packet, where the bytes are one.
    pub fn decode(bytes: &[u8]) -> (packet: Option<Self>)
        ensures
            match packet {
                Some(packet) => {
                    &&& is_discovery(bytes@)
                    &&& packet.protocol_id.0@ == bytes@.subrange(16, 24)
                    &&& packet.hostname@ == vstd::utf8::decode_utf8(
                        until_zero(bytes@.subrange(24, 56)),
                    )
                },
                None => !is_discovery(bytes@),
            },
    {
        if bytes.len() < DISCOVERY_PACKET_LEN {
            return None;
        }
        let mut prefix: Vec<u8> = Vec::new();
        push_discovery_prefix(&mut prefix);
        assert(prefix@ =~= discovery_prefix());
        if !same_bytes(slice_subrange(bytes, 0, 16), prefix.as_slice()) {
            return None;
        }
        let id = [
            bytes[16],
            bytes[17],
            bytes[18],
            bytes[19],
            bytes[20],
            bytes[21],
            bytes[22],
            bytes[23],
        ];
        assert(id@ =~= bytes@.subrange(16, 24));
        match text_from_utf8(take_until_zero(slice_subrange(bytes, 24, 56))) {
            Some(hostname) => Some(DiscoveryPacket { protocol_id: ProtocolId(id), hostname }),
            None => None,
        }
    }
}

proof fn lemma_until_zero_of_field(bytes: Seq<u8>)
    requires
        bytes.len() <= HOSTNAME_LEN,
        forall|i: int| 0 <= i < bytes.len() ==> bytes[i] != 0,
    ensures
        until_zero(hostname_field(bytes)) == bytes,
{
    lemma_until_zero_split(hostname_field(bytes), bytes.len() as int);
    assert(hostname_field(bytes).take(bytes.len() as int) =~= bytes);
}

proof fn lemma_until_zero_split(field: Seq<u8>, length: int)
    requires
        0 <= length <= field.len(),
        forall|i: int| 0 <= i < length ==> field[i] != 0,
        length < field.len() ==> field[length] == 0,
    ensures
        until_zero(field) == field.take(length),
    decreases field.len(),
{
    if length == 0 {
        assert(field.take(0) =~= Seq::empty());
    } else {
        let rest = field.skip(1);
        assert(forall|i: int| 0 <= i < length - 1 ==> rest[i] == #[trigger] field[i + 1]);
        lemma_until_zero_split(rest, length - 1);
        assert(seq![field[0]] + rest.take(length - 1) =~= field.take(length));
    }
}

/// Decoding an encoded packet gives it back, for every host name that fits into the field and
/// holds no zero character.
pub proof fn law_discovery_packet_round_trips(id: Seq<u8>, hostname: Seq<char>)
    requires
        id.len() == 8,
        vstd::utf8::encode_utf8(hostname).len() <= HOSTNAME_LEN,
        forall|i: int|
            0 <= i < vstd::utf8::encode_utf8(hostname).len() ==> vstd::utf8::encode_utf8(
                hostname,
            )[i] != 0,
    ensures
        ({
            let bytes = discovery_bytes(id, hostname);
            &&& is_discovery(bytes)
            &&& bytes.subrange(16, 24) == id
            &&& vstd::utf8::decode_utf8(until_zero(bytes.subrange(24, 56))) == hostname
        }),
{
    let name = vstd::utf8::encode_utf8(hostname);
    let bytes = discovery_bytes(id, hostname);
    assert(bytes.subrange(0, 16) =~= discovery_prefix());
    assert(bytes.subrange(16, 24) =~= id);
    assert(bytes.subrange(24, 56) =~= hostname_field(name));
    lemma_until_zero_of_field(name);
    vstd::utf8::encode_utf8_valid_utf8(hostname);
    vstd::utf8::encode_utf8_decode_utf8(hostname);
}

/// Bytes that follow a packet do not change what is read from it.
pub proof fn law_discovery_ignores_what_follows(bytes: Seq<u8>, more: Seq<u8>)
    requires
        is_discovery(bytes),
    ensures
        is_discovery(bytes + more),
        (bytes + more).subrange(16, 24) == bytes.subrange(16, 24),
        (bytes + more).subrange(24, 56) == bytes.subrange(24, 56),
{
    assert((bytes + more).subrange(0, 16) =~= bytes.subrange(0, 16));
    assert((bytes + more).subrange(16, 24) =~= bytes.subrange(16, 24));
    assert((bytes + more).subrange(24, 56) =~= bytes.subrange(24, 56));
}

/// Stable releases of one major version share their protocol string, and with it their id,
/// whatever their minor and patch numbers.
pub proof fn law_releases_share_the_protocol(first: Seq<char>, second: Seq<char>, major: u64)
    requires
        semantic_version(first) == Some((major, Seq::<char>::empty())),
        semantic_version(second) == Some((major, Seq::<char>::empty())),
    ensures
        protocol_string(first, semantic_version(first)) == protocol_string(
            second,
            semantic_version(second),
        ),
{
}

/// A discovery packet is 56 bytes: the letters `ALVR` and twelve zeros, the eight bytes of the
/// protocol, and the name, cut off at 32 bytes and filled up with zeros.
pub proof fn law_discovery_packets_are_laid_out_in_order(
    id: Seq<u8>,
    hostname: Seq<char>,
    index: int,
)
    requires
        id.len() == 8,
        0 <= index,
    ensures
        ({
            let bytes = discovery_bytes(id, hostname);
            let name = vstd::utf8::encode_utf8(hostname);
            &&& bytes.len() == 56
            &&& bytes[0] == 'A' as int && bytes[1] == 'L' as int
            &&& bytes[2] == 'V' as int && bytes[3] == 'R' as int
            &&& 4 <= index < 16 ==> bytes[index] == 0
            &&& index < 8 ==> bytes[16 + index] == id[index]
            &&& index < 32 ==> bytes[24 + index] == if index < name.len() {
                name[index]
            } else {
                0
            }
        }),
{
}

/// Bytes that are too short, that start otherwise, or whose name is no text are no packet.
pub proof fn law_other_packets_are_refused(bytes: Seq<u8>)
    ensures
        bytes.len() < 56 ==> !is_discovery(bytes),
        bytes.len() >= 56 && (bytes[0] != 'A' as int || bytes[1] != 'L' as int || bytes[2]
            != 'V' as int || bytes[3] != 'R' as int || bytes[4] != 0 || bytes[15] != 0)
            ==> !is_discovery(bytes),
        !vstd::utf8::valid_utf8(until_zero(bytes.subrange(24, 56))) ==> !is_discovery(bytes),
{
    if bytes.len() >= 56 {
        let head = bytes.subrange(0, 16);
        assert(head[0] == bytes[0] && head[1] == bytes[1] && head[2] == bytes[2] && head[3]
            == bytes[3] && head[4] == bytes[4] && head[15] == bytes[15]);
    }
}

/// A name ends at the first zero of its field, and fills the field where it has none.
pub proof fn law_names_end_at_the_first_zero(field: Seq<u8>, length: int)
    requires
        0 <= length <= field.len(),
        forall|i: int| 0 <= i < length ==> field[i] != 0,
        length < field.len() ==> field[length] == 0,
    ensures
        until_zero(field) == field.take(length),
{
    lemma_until_zero_split(field, length);
}

/// Of a version only the major number counts, and the tag where it has one: a release is its major
/// number, a pre-release is told apart by its tag, and what is no version stands for itself.
pub proof fn law_only_major_versions_and_tags_count(
    text: Seq<char>,
    major: u64,
    first: Seq<char>,
    second: Seq<char>,
)
    requires
        first.len() > 0,
        second.len() > 0,
    ensures
        protocol_string(text, Some((major, Seq::<char>::empty()))) == decimal(major as nat),
        protocol_string(text, Some((major, first))) == decimal(major as nat) + "-"@ + first,
        protocol_string(text, None) == text,
        first != second ==> protocol_string(text, Some((major, first))) != protocol_string(
            text,
            Some((major, second)),
        ),
        protocol_string(text, Some((major, first))) != protocol_string(
            text,
            Some((major, Seq::<char>::empty())),
        ),
{
    let head = decimal(major as nat) + "-"@;
    let one = protocol_string(text, Some((major, first)));
    let other = protocol_string(text, Some((major, second)));
    assert(one.skip(head.len() as int) =~= first);
    assert(other.skip(head.len() as int) =~= second);
    assert(one.len() > decimal(major as nat).len());
}

/// An id gives back the number that it was made from.
pub proof fn law_ids_keep_their_number(number: u64, id: ProtocolId, read: u64)
    requires
        call_ensures(ProtocolId::from_u64, (number,), id),
        call_ensures(ProtocolId::as_u64, (id,), read),
    ensures
        read == number,
        id.0@[0] == number % 256,
{
}

/// Bytes are written in two digits each, one after the other: the digits of byte `i` stand at
/// `2 * i`, and are read back as that byte.
pub proof fn law_bytes_are_written_in_two_digits(bytes: Seq<u8>, index: int)
    requires
        0 <= index < bytes.len(),
    ensures
        hex_bytes(bytes).len() == 2 * bytes.len(),
        value_in(hex_bytes(bytes).subrange(2 * index, 2 * index + 2), 16) == bytes[index],
    decreases bytes.len(),
{
    lemma_hex_length(bytes);
    lemma_hex_length(bytes.drop_last());
    let head = hex_bytes(bytes.drop_last());
    let tail = hex_padded(bytes.last() as nat, 2);
    lemma_two_digits(bytes.last());
    if index < bytes.len() - 1 {
        law_bytes_are_written_in_two_digits(bytes.drop_last(), index);
        assert(hex_bytes(bytes).subrange(2 * index, 2 * index + 2) =~= head.subrange(
            2 * index,
            2 * index + 2,
        ));
    } else {
        law_padding_keeps_the_number(bytes.last() as nat, 2);
        assert(hex_bytes(bytes).subrange(2 * index, 2 * index + 2) =~= tail);
    }
}

proof fn lemma_two_digits(byte: u8)
    ensures
        hex_padded(byte as nat, 2).len() == 2,
{
    let n = byte as nat;
    reveal_with_fuel(digits, 3);
    assert(n / 16 < 16);
}

proof fn lemma_hex_length(bytes: Seq<u8>)
    ensures
        hex_bytes(bytes).len() == 2 * bytes.len(),
    decreases bytes.len(),
{
    if bytes.len() > 0 {
        lemma_hex_length(bytes.drop_last());
        lemma_two_digits(bytes.last());
    }
}

/// Clients and servers find each other on port 9943 and stream on port 9944.
pub proof fn law_ports_are_fixed()
    ensures
        DISCOVERY_PORT == 9943,
        STREAM_PORT == 9944,
{
}

/// A packet that one side sends is read by the other as it was sent, for every host name that fits
/// into the field and holds no zero.
pub proof fn law_packets_are_read_as_they_were_sent(
    sent: DiscoveryPacket,
    bytes: Vec<u8>,
    slice: &[u8],
    read: Option<DiscoveryPacket>,
)
    requires
        call_ensures(DiscoveryPacket::encode, (&sent,), bytes),
        slice@ == bytes@,
        call_ensures(DiscoveryPacket::decode, (slice,), read),
        vstd::utf8::encode_utf8(sent.hostname@).len() <= 32,
        forall|i: int|
            0 <= i < vstd::utf8::encode_utf8(sent.hostname@).len() ==> vstd::utf8::encode_utf8(
                sent.hostname@,
            )[i] != 0,
    ensures
        bytes@.len() == 56,
        read is Some,
        read->0.protocol_id.0@ == sent.protocol_id.0@,
        read->0.hostname@ == sent.hostname@,
{
    law_discovery_packet_round_trips(sent.protocol_id.0@, sent.hostname@);
}

} // verus!
