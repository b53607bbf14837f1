//! Stream packets split into datagram shards, and their reassembly.
//!
//! A stream packet travels as one or more shards. Each shard is a datagram of a
//! 14-byte prefix (stream, packet index, shard count, shard index) and a slice
//! of the packet's bytes; every shard but the last is full.

use std::collections::HashMap;
use vstd::prelude::*;
use vstd::slice::slice_subrange;

use crate::text::{bool_text, decimal, format_bool, format_decimal};
use crate::wire::{
    copy_range, push_bytes, push_u16_le, push_u32_le, read_u16_le, read_u32_le,
};

verus! {

broadcast use vstd::std_specs::hash::group_hash_axioms;

/// Length of the prefix in front of every shard.
pub const ALVR_STREAM_SHARD_PREFIX_SIZE: usize = 14;

/// Pending packets above which stale ones are dropped.
pub const PENDING_PACKET_LIMIT: usize = 64;

/// Age in nanoseconds above which a pending packet is stale.
pub const STALE_PACKET_AGE_NS: u64 = 2_000_000_000;

/// The prefix of a shard.
#[derive(Clone, Copy, Debug, PartialEq, Eq, Structural)]
pub struct ShardPrefix {
    pub stream_id: u16,
    pub packet_index: u32,
    pub shards_count: u32,
    pub shard_index: u32,
}

/// The bytes of a shard prefix.
pub open spec fn prefix_bytes(prefix: ShardPrefix) -> Seq<u8> {
    crate::wire::le16(prefix.stream_id) + crate::wire::le32(prefix.packet_index)
        + crate::wire::le32(prefix.shards_count) + crate::wire::le32(prefix.shard_index)
}

/// The prefix that the first bytes of a datagram hold.
pub open spec fn prefix_of(datagram: Seq<u8>) -> ShardPrefix {
    ShardPrefix {
        stream_id: crate::wire::le16_at(datagram, 0) as u16,
        packet_index: crate::wire::le32_at(datagram, 2) as u32,
        shards_count: crate::wire::le32_at(datagram, 6) as u32,
        shard_index: crate::wire::le32_at(datagram, 10) as u32,
    }
}

/// A shard as it is sent: its prefix, then its share of the packet.
pub open spec fn shard_datagram(prefix: ShardPrefix, share: Seq<u8>) -> Seq<u8> {
    prefix_bytes(prefix) + share
}

/// The prefix of a datagram that a sender built is the one it was built from, and the
/// rest of the datagram is the sender's share of the packet.
pub proof fn lemma_shard_datagram_round_trip(prefix: ShardPrefix, share: Seq<u8>)
    ensures
        prefix_of(shard_datagram(prefix, share)) == prefix,
        shard_datagram(prefix, share).skip(ALVR_STREAM_SHARD_PREFIX_SIZE as int) == share,
        shard_datagram(prefix, share).len() == ALVR_STREAM_SHARD_PREFIX_SIZE + share.len(),
{
    let datagram = shard_datagram(prefix, share);
    assert(datagram.subrange(0, 2) =~= crate::wire::le16(prefix.stream_id));
    assert(datagram.subrange(2, 6) =~= crate::wire::le32(prefix.packet_index));
    assert(datagram.subrange(6, 10) =~= crate::wire::le32(prefix.shards_count));
    assert(datagram.subrange(10, 14) =~= crate::wire::le32(prefix.shard_index));
    crate::wire::lemma_le16_round_trip(prefix.stream_id, datagram, 0);
    crate::wire::lemma_le32_round_trip(prefix.packet_index, datagram, 2);
    crate::wire::lemma_le32_round_trip(prefix.shards_count, datagram, 6);
    crate::wire::lemma_le32_round_trip(prefix.shard_index, datagram, 10);
    assert(datagram.skip(14) =~= share);
}

/// Reads the prefix of a datagram that is long enough to hold one.
pub fn read_shard_prefix(datagram: &[u8]) -> (prefix: ShardPrefix)
    requires
        datagram@.len() >= ALVR_STREAM_SHARD_PREFIX_SIZE,
    ensures
        prefix == prefix_of(datagram@),
{
    ShardPrefix {
        stream_id: read_u16_le(datagram, 0),
        packet_index: read_u32_le(datagram, 2),
        shards_count: read_u32_le(datagram, 6),
        shard_index: read_u32_le(datagram, 10),
    }
}

/// Builds one shard.
pub fn build_shard(prefix: ShardPrefix, share: &[u8]) -> (datagram: Vec<u8>)
    ensures
        datagram@ == shard_datagram(prefix, share@),
{
    let mut datagram: Vec<u8> = Vec::new();
    push_u16_le(&mut datagram, prefix.stream_id);
    push_u32_le(&mut datagram, prefix.packet_index);
    push_u32_le(&mut datagram, prefix.shards_count);
    push_u32_le(&mut datagram, prefix.shard_index);
    push_bytes(&mut datagram, share);
    assert(datagram@ =~= shard_datagram(prefix, share@));
    datagram
}

/// Why a packet could not be put into datagrams.
#[derive(Clone, Copy, Debug, PartialEq, Eq, Structural)]
pub enum PacketError {
    /// The packet does not fit into one datagram.
    TooLarge { datagram_len: usize, max_packet_size: usize },
    /// The length of the datagram does not fit into the machine's address range.
    LengthOverflow,
    /// The maximum datagram size leaves no room for data after the prefix.
    NoRoomForData,
    /// The packet needs more shards than a shard count can name.
    TooManyShards,
}

/// Builds the datagram of a packet that is sent whole: one shard with its prefix.
///
/// Fails where prefix and payload together are longer than `max_packet_size`.
pub fn build_header_packet(
    stream_id: u16,
    packet_index: u32,
    payload: &[u8],
    max_packet_size: usize,
) -> (datagram: Result<Vec<u8>, PacketError>)
    ensures
        match datagram {
            Ok(bytes) => {
                &&& ALVR_STREAM_SHARD_PREFIX_SIZE + payload@.len() <= max_packet_size
                &&& bytes@ == shard_datagram(
                    (ShardPrefix { stream_id, packet_index, shards_count: 1, shard_index: 0 }),
                    payload@,
                )
            },
            Err(PacketError::TooLarge { datagram_len, max_packet_size: limit }) => {
                &&& datagram_len == ALVR_STREAM_SHARD_PREFIX_SIZE + payload@.len()
                &&& limit == max_packet_size
                &&& datagram_len > max_packet_size
            },
            Err(PacketError::LengthOverflow) => ALVR_STREAM_SHARD_PREFIX_SIZE + payload@.len()
                > usize::MAX,
            Err(_) => false,
        },
{
    let length: usize = match ALVR_STREAM_SHARD_PREFIX_SIZE.checked_add(payload.len()) {
        Some(length) => length,
        None => {
            return Err(PacketError::LengthOverflow);
        },
    };
    if length > max_packet_size {
        return Err(PacketError::TooLarge { datagram_len: length, max_packet_size });
    }
    Ok(
        build_shard(
            ShardPrefix { stream_id, packet_index, shards_count: 1, shard_index: 0 },
            payload,
        ),
    )
}

// ---------------------------------------------------------------------------
// Splitting
// ---------------------------------------------------------------------------

/// Number of shards of a packet of `length` bytes where a shard holds `size` bytes: at least one.
pub open spec fn shard_count(length: nat, size: nat) -> nat
    recommends
        size > 0,
{
    if length == 0 {
        1
    } else {
        ((length + size - 1) / size as int) as nat
    }
}

/// The smaller of two integers.
pub open spec fn lesser(a: int, b: int) -> int {
    if a <= b {
        a
    } else {
        b
    }
}

/// The share of `payload` that shard `index` carries.
pub open spec fn shard_share(payload: Seq<u8>, size: nat, index: int) -> Seq<u8> {
    payload.subrange(
        lesser(index * size, payload.len() as int),
        lesser((index + 1) * size, payload.len() as int),
    )
}

/// The datagrams of a packet.
pub open spec fn shards_of(stream_id: u16, packet_index: u32, payload: Seq<u8>, size: nat) -> Seq<
    Seq<u8>,
> {
    let count = shard_count(payload.len(), size);
    Seq::new(
        count,
        |index: int|
            shard_datagram(
                ShardPrefix {
                    stream_id,
                    packet_index,
                    shards_count: count as u32,
                    shard_index: index as u32,
                },
                shard_share(payload, size, index),
            ),
    )
}

/// The byte sequences of a sequence of byte vectors.
pub open spec fn byte_views(parts: Seq<Vec<u8>>) -> Seq<Seq<u8>> {
    parts.map_values(|part: Vec<u8>| part@)
}

/// Where shard `index` starts and ends: shards cover the packet, and all but the last are full.
pub proof fn lemma_shard_bounds(length: nat, size: nat, index: int)
    requires
        size > 0,
        0 <= index < shard_count(length, size),
    ensures
        index * size <= length,
        index + 1 < shard_count(length, size) ==> (index + 1) * size <= length,
        index + 1 == shard_count(length, size) ==> length <= (index + 1) * size,
        length > 0 ==> index * size < length,
        shard_count(length, size) >= 1,
        length > 0 ==> shard_count(length, size) <= length,
{
    if length == 0 {
        assert(index * size == 0) by (nonlinear_arith)
            requires
                index == 0,
        ;
        assert((index + 1) * size >= 0) by (nonlinear_arith)
            requires
                index == 0,
        ;
    } else {
        let count = shard_count(length, size) as int;
        let top = length + size - 1;
        assert(count == top / size as int);
        assert(count * size <= top < count * size + size) by (nonlinear_arith)
            requires
                count == top / size as int,
                size > 0,
        ;
        assert(count <= length) by (nonlinear_arith)
            requires
                count * size <= length + size - 1,
                size > 0,
                length > 0,
        ;
        assert(index * size < length) by (nonlinear_arith)
            requires
                index <= count - 1,
                count * size <= length + size - 1,
                size > 0,
        ;
        if index + 1 < count {
            assert((index + 1) * size <= length) by (nonlinear_arith)
                requires
                    index + 1 <= count - 1,
                    count * size <= length + size - 1,
                    size > 0,
            ;
        }
    }
}

/// Every packet has at least one shard.
pub proof fn lemma_shard_count_positive(length: nat, size: nat)
    requires
        size > 0,
    ensures
        shard_count(length, size) >= 1,
{
    if length > 0 {
        assert((length + size - 1) / size as int >= 1) by (nonlinear_arith)
            requires
                length > 0,
                size > 0,
        ;
    }
}

/// Splits a packet into its datagrams.
///
/// `max_packet_size` bounds each datagram, prefix included. Fails where it leaves no room for
/// data, or where the packet needs more shards than a shard count can name.
pub fn split_stream_payload(
    stream_id: u16,
    packet_index: u32,
    payload: &[u8],
    max_packet_size: usize,
) -> (shards: Result<Vec<Vec<u8>>, PacketError>)
    ensures
        match shards {
            Ok(datagrams) => {
                &&& max_packet_size > ALVR_STREAM_SHARD_PREFIX_SIZE
                &&& shard_count(
                    payload@.len(),
                    (max_packet_size - ALVR_STREAM_SHARD_PREFIX_SIZE) as nat,
                ) <= u32::MAX
                &&& byte_views(datagrams@) == shards_of(
                    stream_id,
                    packet_index,
                    payload@,
                    (max_packet_size - ALVR_STREAM_SHARD_PREFIX_SIZE) as nat,
                )
            },
            Err(PacketError::NoRoomForData) => max_packet_size <= ALVR_STREAM_SHARD_PREFIX_SIZE,
            Err(PacketError::TooManyShards) => {
                &&& max_packet_size > ALVR_STREAM_SHARD_PREFIX_SIZE
                &&& shard_count(
                    payload@.len(),
                    (max_packet_size - ALVR_STREAM_SHARD_PREFIX_SIZE) as nat,
                ) > u32::MAX
            },
            Err(_) => false,
        },
{
    if max_packet_size <= ALVR_STREAM_SHARD_PREFIX_SIZE {
        return Err(PacketError::NoRoomForData);
    }
    let size: usize = max_packet_size - ALVR_STREAM_SHARD_PREFIX_SIZE;
    let length: usize = payload.len();
    let count: usize = if length == 0 {
        1
    } else {
        (length - 1) / size + 1
    };
    proof {
        if length > 0 {
            assert((length - 1) / size as int + 1 == (length + size - 1) / size as int)
                by (nonlinear_arith)
                requires
                    size > 0,
                    length > 0,
            ;
        }
        assert(count == shard_count(length as nat, size as nat));
    }
    if count > u32::MAX as usize {
        return Err(PacketError::TooManyShards);
    }
    let mut datagrams: Vec<Vec<u8>> = Vec::new();
    let mut index: usize = 0;
    let mut start: usize = 0;
    proof {
        assert(index * size == 0) by (nonlinear_arith)
            requires
                index == 0,
        ;
    }
    while index < count
        invariant
            index <= count,
            count == shard_count(length as nat, size as nat),
            count <= u32::MAX,
            size > 0,
            length == payload@.len(),
            index < count ==> start == index * size,
            start <= length,
            datagrams@.len() == index,
            forall|i: int|
                0 <= i < index ==> #[trigger] datagrams@[i]@ == shards_of(
                    stream_id,
                    packet_index,
                    payload@,
                    size as nat,
                )[i],
        decreases count - index,
    {
        proof {
            lemma_shard_bounds(length as nat, size as nat, index as int);
        }
        let end: usize = if size < length - start {
            start + size
        } else {
            length
        };
        proof {
            assert((index + 1) * size == index * size + size) by (nonlinear_arith);
            assert(end == lesser((index + 1) * size, length as int));
        }
        let share = slice_subrange(payload, start, end);
        let datagram = build_shard(
            ShardPrefix {
                stream_id,
                packet_index,
                shards_count: count as u32,
                shard_index: index as u32,
            },
            share,
        );
        datagrams.push(datagram);
        start = end;
        index = index + 1;
    }
    assert(byte_views(datagrams@) =~= shards_of(stream_id, packet_index, payload@, size as nat));
    Ok(datagrams)
}

// ---------------------------------------------------------------------------
// Collecting
// ---------------------------------------------------------------------------

/// A packet of which some shards are still missing.
#[derive(Clone, Debug)]
pub struct PartialPacket {
    pub shards_count: u32,
    pub received: Vec<bool>,
    pub received_count: u32,
    pub data: Vec<u8>,
    pub first_seen_ns: u64,
}

/// What a partial packet holds.
pub struct PartialView {
    pub shards_count: u32,
    pub received: Seq<bool>,
    pub received_count: u32,
    pub data: Seq<u8>,
    pub first_seen_ns: u64,
}

impl View for PartialPacket {
    type V = PartialView;

    open spec fn view(&self) -> PartialView {
        PartialView {
            shards_count: self.shards_count,
            received: self.received@,
            received_count: self.received_count,
            data: self.data@,
            first_seen_ns: self.first_seen_ns,
        }
    }
}

/// Number of shards marked as received.
pub open spec fn marked(received: Seq<bool>) -> nat
    decreases received.len(),
{
    if received.len() == 0 {
        0
    } else {
        marked(received.drop_last()) + if received.last() {
            1nat
        } else {
            0nat
        }
    }
}

impl PartialView {
    /// One mark per shard, a count that agrees with the marks, and at least one shard missing.
    pub open spec fn well_formed(self) -> bool {
        &&& self.received.len() == self.shards_count
        &&& self.received_count == marked(self.received)
        &&& self.received_count < self.shards_count
    }
}

/// The pending packets by index.
pub open spec fn pending_of(packets: Map<u32, PartialPacket>) -> Map<u32, PartialView> {
    packets.map_values(|partial: PartialPacket| partial@)
}

/// Every pending packet is well formed.
pub open spec fn pending_well_formed(pending: Map<u32, PartialView>) -> bool {
    forall|index: u32| #[trigger]
        pending.contains_key(index) ==> pending[index].well_formed()
}

/// A packet that no shard of has arrived.
pub open spec fn fresh_partial(shards_count: u32, now_ns: u64) -> PartialView {
    PartialView {
        shards_count,
        received: Seq::new(shards_count as nat, |i: int| false),
        received_count: 0,
        data: Seq::empty(),
        first_seen_ns: now_ns,
    }
}

/// `data` with `bytes` written at `offset`, extended with zeros as far as needed.
pub open spec fn overlay(data: Seq<u8>, offset: int, bytes: Seq<u8>) -> Seq<u8> {
    Seq::new(
        if data.len() < offset + bytes.len() {
            (offset + bytes.len()) as nat
        } else {
            data.len()
        },
        |i: int|
            if offset <= i < offset + bytes.len() {
                bytes[i - offset]
            } else if i < data.len() {
                data[i]
            } else {
                0u8
            },
    )
}

/// A partial packet after shard `index` with the bytes `share` arrived.
pub open spec fn with_shard(partial: PartialView, index: u32, size: nat, share: Seq<u8>) -> PartialView {
    PartialView {
        received: partial.received.update(index as int, true),
        received_count: (partial.received_count + 1) as u32,
        data: overlay(partial.data, index * size, share),
        ..partial
    }
}

/// The pending packets first seen no earlier than `cutoff_ns`.
pub open spec fn fresh_only(pending: Map<u32, PartialView>, cutoff_ns: u64) -> Map<
    u32,
    PartialView,
> {
    pending.restrict(Set::new(|index: u32| pending[index].first_seen_ns >= cutoff_ns))
}

/// The time `age_ns` before `now_ns`, or the start of the clock.
pub open spec fn time_before(now_ns: u64, age_ns: u64) -> u64 {
    if now_ns < age_ns {
        0
    } else {
        (now_ns - age_ns) as u64
    }
}

/// One shard of a packet, without the stream it belongs to.
pub struct ShardView {
    pub packet_index: u32,
    pub shards_count: u32,
    pub shard_index: u32,
    pub share: Seq<u8>,
}

/// The pending packets in which a shard is looked up: stale ones are dropped once there are many.
pub open spec fn pruned(pending: Map<u32, PartialView>, now_ns: u64) -> Map<u32, PartialView> {
    if pending.len() > PENDING_PACKET_LIMIT {
        fresh_only(pending, time_before(now_ns, STALE_PACKET_AGE_NS))
    } else {
        pending
    }
}

/// The partial packet that a shard belongs to: the pending one, or a new one.
pub open spec fn partial_for(
    pending: Map<u32, PartialView>,
    shard: ShardView,
    now_ns: u64,
) -> PartialView {
    if pending.contains_key(shard.packet_index) {
        pending[shard.packet_index]
    } else {
        fresh_partial(shard.shards_count, now_ns)
    }
}

/// Whether a partial packet takes a shard: the counts agree, the shard is new and its place
/// lies in the address range.
pub open spec fn takes_shard(partial: PartialView, shard: ShardView, size: nat) -> bool {
    &&& partial.shards_count == shard.shards_count
    &&& !partial.received[shard.shard_index as int]
    &&& shard.shard_index * size + shard.share.len() <= usize::MAX
}

/// The pending packets after a shard arrived, and the bytes of the packet it completed.
pub open spec fn after_shard(
    pending: Map<u32, PartialView>,
    size: nat,
    shard: ShardView,
    now_ns: u64,
) -> (Map<u32, PartialView>, Option<Seq<u8>>) {
    if shard.shard_index >= shard.shards_count {
        (pending, None)
    } else {
        let kept = pruned(pending, now_ns);
        let partial = partial_for(kept, shard, now_ns);
        if !takes_shard(partial, shard, size) {
            (kept.insert(shard.packet_index, partial), None)
        } else {
            let filled = with_shard(partial, shard.shard_index, size, shard.share);
            if filled.received_count == filled.shards_count {
                (kept.remove(shard.packet_index), Some(filled.data))
            } else {
                (kept.insert(shard.packet_index, filled), None)
            }
        }
    }
}

proof fn lemma_marked_update(received: Seq<bool>, index: int)
    requires
        0 <= index < received.len(),
        !received[index],
    ensures
        marked(received.update(index, true)) == marked(received) + 1,
    decreases received.len(),
{
    let updated = received.update(index, true);
    if index == received.len() - 1 {
        assert(updated.drop_last() =~= received.drop_last());
    } else {
        assert(updated.drop_last() =~= received.drop_last().update(index, true));
        lemma_marked_update(received.drop_last(), index);
    }
}

proof fn lemma_marked_bounds(received: Seq<bool>)
    ensures
        marked(received) <= received.len(),
        marked(received) == received.len() ==> forall|i: int|
            0 <= i < received.len() ==> received[i],
    decreases received.len(),
{
    if received.len() > 0 {
        lemma_marked_bounds(received.drop_last());
        assert(forall|i: int|
            0 <= i < received.len() - 1 ==> received.drop_last()[i] == #[trigger] received[i]);
    }
}

proof fn lemma_marked_none(count: nat)
    ensures
        marked(Seq::new(count, |i: int| false)) == 0,
    decreases count,
{
    let none: Seq<bool> = Seq::new(count, |i: int| false);
    if count > 0 {
        assert(none.drop_last() =~= Seq::new((count - 1) as nat, |i: int| false));
        lemma_marked_none((count - 1) as nat);
    }
}

/// Taking a shard keeps every pending packet well formed.
pub proof fn lemma_after_shard_well_formed(
    pending: Map<u32, PartialView>,
    size: nat,
    shard: ShardView,
    now_ns: u64,
)
    requires
        pending_well_formed(pending),
    ensures
        pending_well_formed(after_shard(pending, size, shard, now_ns).0),
{
    if shard.shard_index < shard.shards_count {
        let kept = pruned(pending, now_ns);
        assert(pending_well_formed(kept)) by {
            assert forall|index: u32| #[trigger] kept.contains_key(index) implies kept[index].well_formed() by {
                assert(pending.contains_key(index));
            }
        }
        let partial = partial_for(kept, shard, now_ns);
        lemma_marked_none(shard.shards_count as nat);
        assert(partial.well_formed());
        if takes_shard(partial, shard, size) {
            lemma_marked_update(partial.received, shard.shard_index as int);
            lemma_marked_bounds(partial.received.update(shard.shard_index as int, true));
        }
    }
}

/// Drops the pending packets that were first seen before `cutoff_ns`.
fn drop_stale(packets: &mut HashMap<u32, PartialPacket>, cutoff_ns: u64)
    ensures
        pending_of(final(packets)@) == fresh_only(pending_of(old(packets)@), cutoff_ns),
{
    let ghost before = packets@;
    let mut stale: Vec<u32> = Vec::new();
    for key in iter: packets.keys()
        invariant
            packets@ == before,
            iter.seq().unref().to_set() == before.dom(),
            forall|i: int|
                0 <= i < stale@.len() ==> before.contains_key(#[trigger] stale@[i])
                    && before[stale@[i]].first_seen_ns < cutoff_ns,
            forall|i: int|
                0 <= i < iter.index() && before[*(#[trigger] iter.seq()[i])].first_seen_ns < cutoff_ns
                    ==> stale@.contains(*iter.seq()[i]),
    {
        proof {
            assert(iter.seq().unref()[iter.index()] == *key);
            assert(iter.seq().unref().to_set().contains(*key));
        }
        let ghost stale_before = stale@;
        if let Some(partial) = packets.get(key) {
            if partial.first_seen_ns < cutoff_ns {
                stale.push(*key);
                proof {
                    assert(stale@[stale_before.len() as int] == *key);
                    assert(forall|k: u32| stale_before.contains(k) ==> stale@.contains(k)) by {
                        assert forall|k: u32| stale_before.contains(k) implies stale@.contains(k) by {
                            let at = choose|at: int| 0 <= at < stale_before.len() && stale_before[at] == k;
                            assert(stale@[at] == k);
                        }
                    }
                }
            }
        }
    }
    assert(forall|k: u32|
        before.contains_key(k) && before[k].first_seen_ns < cutoff_ns ==> stale@.contains(k)) by {
        assert forall|k: u32|
            before.contains_key(k) && before[k].first_seen_ns < cutoff_ns implies stale@.contains(k) by {
        }
    }
    let mut index: usize = 0;
    while index < stale.len()
        invariant
            index <= stale@.len(),
            packets@ == before.remove_keys(stale@.take(index as int).to_set()),
        decreases stale@.len() - index,
    {
        let key: u32 = stale[index];
        packets.remove(&key);
        proof {
            let head = stale@.take(index as int);
            assert(stale@.take(index + 1) =~= head.push(key));
            assert(head.push(key).to_set() =~= head.to_set().insert(key)) by {
                broadcast use vstd::seq_lib::group_seq_properties;

            }
            assert(packets@ =~= before.remove_keys(stale@.take(index + 1).to_set()));
        }
        index = index + 1;
    }
    assert(stale@.take(stale@.len() as int) =~= stale@);
    assert(pending_of(packets@) =~= fresh_only(pending_of(before), cutoff_ns));
}

/// Files one shard under its packet, and hands out the bytes of the packet that it completes.
fn collect_shard(
    packets: &mut HashMap<u32, PartialPacket>,
    max_shard_data_size: usize,
    packet_index: u32,
    shards_count: u32,
    shard_index: u32,
    share: &[u8],
    now_ns: u64,
) -> (completed: Option<Vec<u8>>)
    requires
        pending_well_formed(pending_of(old(packets)@)),
    ensures
        pending_well_formed(pending_of(final(packets)@)),
        pending_of(final(packets)@) == after_shard(
            pending_of(old(packets)@),
            max_shard_data_size as nat,
            (ShardView { packet_index, shards_count, shard_index, share: share@ }),
            now_ns,
        ).0,
        match (
            completed,
            after_shard(
                pending_of(old(packets)@),
                max_shard_data_size as nat,
                (ShardView { packet_index, shards_count, shard_index, share: share@ }),
                now_ns,
            ).1,
        ) {
            (Some(bytes), Some(expected)) => bytes@ == expected,
            (None, None) => true,
            _ => false,
        },
{
    let ghost before = pending_of(packets@);
    let ghost shard = ShardView { packet_index, shards_count, shard_index, share: share@ };
    proof {
        lemma_after_shard_well_formed(before, max_shard_data_size as nat, shard, now_ns);
        assert(before.dom() =~= packets@.dom());
    }
    if shards_count == 0 || shard_index >= shards_count {
        return None;
    }
    if packets.len() > PENDING_PACKET_LIMIT {
        let cutoff_ns: u64 = if now_ns < STALE_PACKET_AGE_NS {
            0
        } else {
            now_ns - STALE_PACKET_AGE_NS
        };
        drop_stale(packets, cutoff_ns);
    }
    let ghost kept = pending_of(packets@);
    assert(kept == pruned(before, now_ns));
    let mut partial: PartialPacket = match packets.remove(&packet_index) {
        Some(partial) => partial,
        None => PartialPacket {
            shards_count,
            received: vec![false; shards_count as usize],
            received_count: 0,
            data: Vec::new(),
            first_seen_ns: now_ns,
        },
    };
    let ghost opened = partial@;
    proof {
        assert(opened.received =~= partial_for(kept, shard, now_ns).received);
        assert(opened.data =~= partial_for(kept, shard, now_ns).data);
        assert(opened == partial_for(kept, shard, now_ns));
        lemma_marked_none(shards_count as nat);
        assert(opened.well_formed()) by {
            if kept.contains_key(packet_index) {
                assert(before.contains_key(packet_index));
            }
        }
        assert(pending_of(packets@) =~= kept.remove(packet_index));
    }
    let position: usize = shard_index as usize;
    let place: Option<usize> = match position.checked_mul(max_shard_data_size) {
        Some(offset) => offset.checked_add(share.len()),
        None => None,
    };
    let end: usize = match place {
        Some(end) if partial.shards_count == shards_count && !partial.received[position] => end,
        _ => {
            packets.insert(packet_index, partial);
            assert(!takes_shard(opened, shard, max_shard_data_size as nat));
            assert(pending_of(packets@) =~= kept.insert(packet_index, opened));
            return None;
        },
    };
    assert(takes_shard(opened, shard, max_shard_data_size as nat));
    let offset: usize = end - share.len();
    if partial.data.len() < end {
        partial.data.resize(end, 0);
    }
    let ghost widened = partial.data@;
    let mut copied: usize = 0;
    while copied < share.len()
        invariant
            copied <= share@.len(),
            offset + share@.len() == end,
            end <= widened.len(),
            partial.data@.len() == widened.len(),
            partial.shards_count == opened.shards_count,
            partial.received@ == opened.received,
            partial.received_count == opened.received_count,
            partial.first_seen_ns == opened.first_seen_ns,
            forall|i: int|
                0 <= i < widened.len() ==> #[trigger] partial.data@[i] == if offset <= i < offset
                    + copied {
                    share@[i - offset]
                } else {
                    widened[i]
                },
        decreases share@.len() - copied,
    {
        let byte: u8 = share[copied];
        partial.data.set(offset + copied, byte);
        copied = copied + 1;
    }
    proof {
        lemma_marked_update(opened.received, shard_index as int);
        lemma_marked_bounds(opened.received.update(shard_index as int, true));
    }
    partial.received.set(position, true);
    partial.received_count = partial.received_count + 1;
    let ghost filled = with_shard(opened, shard_index, max_shard_data_size as nat, share@);
    proof {
        assert(partial.data@ =~= filled.data);
        assert(partial@ == filled);
    }
    if partial.received_count != partial.shards_count {
        packets.insert(packet_index, partial);
        assert(pending_of(packets@) =~= kept.insert(packet_index, filled));
        return None;
    }
    Some(partial.data)
}

// ---------------------------------------------------------------------------
// Splitting and collecting undo each other
// ---------------------------------------------------------------------------

/// Shard `index` of a packet as a receiver files it.
pub open spec fn nth_shard(packet_index: u32, payload: Seq<u8>, size: nat, index: int) -> ShardView {
    ShardView {
        packet_index,
        shards_count: shard_count(payload.len(), size) as u32,
        shard_index: index as u32,
        share: shard_share(payload, size, index),
    }
}

/// The pending packets, and what the last shard completed, after the shards of one packet
/// arrived in the order `order`, at the times `times`.
pub open spec fn after_order(
    pending: Map<u32, PartialView>,
    packet_index: u32,
    payload: Seq<u8>,
    size: nat,
    order: Seq<int>,
    times: Seq<u64>,
) -> (Map<u32, PartialView>, Option<Seq<u8>>)
    decreases order.len(),
{
    if order.len() == 0 {
        (pending, None)
    } else {
        after_shard(
            after_order(
                pending,
                packet_index,
                payload,
                size,
                order.drop_last(),
                times.drop_last(),
            ).0,
            size,
            nth_shard(packet_index, payload, size, order.last()),
            times.last(),
        )
    }
}

/// Whether byte `j` of a packet lies where shard `i` goes.
spec fn in_share(size: nat, i: int, j: int) -> bool {
    i * size <= j < (i + 1) * size
}

/// `partial` holds exactly the shards of `payload` that `order` names.
spec fn holds_shards(partial: PartialView, payload: Seq<u8>, size: nat, order: Seq<int>) -> bool {
    &&& partial.shards_count == shard_count(payload.len(), size)
    &&& partial.received.len() == partial.shards_count
    &&& partial.received_count == order.len()
    &&& partial.received_count == marked(partial.received)
    &&& forall|i: int|
        0 <= i < partial.received.len() ==> #[trigger] partial.received[i] == order.contains(i)
    &&& partial.data.len() <= payload.len()
    &&& forall|i: int, j: int|
        #![trigger order.contains(i), in_share(size, i, j)]
        order.contains(i) && 0 <= j < payload.len() && in_share(size, i, j) ==> j
            < partial.data.len() && partial.data[j] == payload[j]
}

proof fn lemma_holds_shards_step(
    partial: PartialView,
    payload: Seq<u8>,
    size: nat,
    order: Seq<int>,
    index: int,
)
    requires
        size > 0,
        payload.len() <= usize::MAX,
        shard_count(payload.len(), size) <= u32::MAX,
        0 <= index < shard_count(payload.len(), size),
        holds_shards(partial, payload, size, order),
        !order.contains(index),
    ensures
        takes_shard(partial, nth_shard(0, payload, size, index), size),
        holds_shards(
            with_shard(partial, index as u32, size, shard_share(payload, size, index)),
            payload,
            size,
            order.push(index),
        ),
{
    let share = shard_share(payload, size, index);
    let filled = with_shard(partial, index as u32, size, share);
    let wider = order.push(index);
    lemma_shard_bounds(payload.len(), size, index);
    lemma_marked_update(partial.received, index);
    lemma_marked_bounds(filled.received);
    assert((index + 1) * size == index * size + size) by (nonlinear_arith);
    assert(share.len() == lesser((index + 1) * size, payload.len() as int) - index * size);
    assert forall|i: int| wider.contains(i) <==> (order.contains(i) || i == index) by {
        if order.contains(i) {
            let at = choose|at: int| 0 <= at < order.len() && order[at] == i;
            assert(wider[at] == i);
        }
        assert(wider[order.len() as int] == index);
    }
    assert forall|i: int, j: int|
        #![trigger wider.contains(i), in_share(size, i, j)]
        wider.contains(i) && 0 <= j < payload.len() && in_share(size, i, j) implies j
        < filled.data.len() && filled.data[j] == payload[j] by {
        if index * size <= j < index * size + share.len() {
            assert(share[j - index * size] == payload[j]);
        } else if i == index {
            assert(j < lesser((index + 1) * size, payload.len() as int));
        } else {
            assert(order.contains(i));
            assert(j < partial.data.len());
        }
    }
}

/// A packet of which every shard arrived holds the payload.
proof fn lemma_full_holds_payload(filled: PartialView, payload: Seq<u8>, size: nat, order: Seq<int>)
    requires
        size > 0,
        holds_shards(filled, payload, size, order),
        filled.received_count == filled.shards_count,
    ensures
        filled.data == payload,
{
    let count = shard_count(payload.len(), size);
    lemma_shard_count_positive(payload.len(), size);
    lemma_marked_bounds(filled.received);
    assert(filled.data =~= payload) by {
        assert forall|j: int| 0 <= j < payload.len() implies j < filled.data.len()
            && #[trigger] payload[j] == filled.data[j] by {
            let i = j / size as int;
            assert(i * size <= j < (i + 1) * size && 0 <= i) by (nonlinear_arith)
                requires
                    i == j / size as int,
                    size > 0,
                    0 <= j,
            ;
            assert(i < count) by {
                lemma_shard_bounds(payload.len(), size, count - 1);
                if i >= count {
                    assert(i * size >= count * size) by (nonlinear_arith)
                        requires
                            i >= count,
                    ;
                }
            }
            assert(filled.received[i]);
            assert(order.contains(i));
            assert(in_share(size, i, j));
        }
        if payload.len() > 0 {
            assert(payload[payload.len() - 1] == filled.data[payload.len() - 1]);
        }
    }
}

proof fn lemma_after_order(
    pending: Map<u32, PartialView>,
    packet_index: u32,
    payload: Seq<u8>,
    size: nat,
    order: Seq<int>,
    times: Seq<u64>,
)
    requires
        size > 0,
        payload.len() <= usize::MAX,
        shard_count(payload.len(), size) <= u32::MAX,
        pending.dom().finite(),
        pending.len() < PENDING_PACKET_LIMIT,
        !pending.contains_key(packet_index),
        0 < order.len() <= shard_count(payload.len(), size),
        times.len() == order.len(),
        order.no_duplicates(),
        forall|i: int|
            0 <= i < order.len() ==> 0 <= #[trigger] order[i] < shard_count(payload.len(), size),
    ensures
        ({
            let after = after_order(pending, packet_index, payload, size, order, times);
            if order.len() == shard_count(payload.len(), size) {
                after == (pending, Some(payload))
            } else {
                &&& after.1 is None
                &&& after.0.contains_key(packet_index)
                &&& after.0 == pending.insert(packet_index, after.0[packet_index])
                &&& holds_shards(after.0[packet_index], payload, size, order)
            }
        }),
    decreases order.len(),
{
    let count = shard_count(payload.len(), size);
    let earlier = order.drop_last();
    let index = order.last();
    let shard = nth_shard(packet_index, payload, size, index);
    let now_ns = times.last();
    let before = after_order(pending, packet_index, payload, size, earlier, times.drop_last()).0;
    assert(0 <= index < count);
    assert(order =~= earlier.push(index));
    assert(!earlier.contains(index));
    let partial = partial_for(before, shard, now_ns);
    if earlier.len() > 0 {
        assert(earlier.no_duplicates());
        assert(forall|i: int| 0 <= i < earlier.len() ==> earlier[i] == #[trigger] order[i]);
        lemma_after_order(pending, packet_index, payload, size, earlier, times.drop_last());
    } else {
        lemma_marked_none(count);
        assert(earlier =~= Seq::empty());
        assert(before == pending);
        assert(holds_shards(partial, payload, size, earlier));
    }
    assert(before.len() <= PENDING_PACKET_LIMIT);
    assert(pruned(before, now_ns) == before);
    lemma_holds_shards_step(partial, payload, size, earlier, index);
    assert(takes_shard(partial, shard, size));
    let filled = with_shard(partial, index as u32, size, shard.share);
    if order.len() == count {
        lemma_full_holds_payload(filled, payload, size, order);
        assert(before.remove(packet_index) =~= pending);
    } else {
        let after = before.insert(packet_index, filled);
        assert(after =~= pending.insert(packet_index, filled));
    }
}

/// The shards of a packet, taken once each and in any order, give the packet back: no shard but
/// the last completes anything, the last hands out the packet's bytes, and the other pending
/// packets are left as they were. (With fewer than the limit of other packets pending; above it
/// stale packets are dropped.)
pub proof fn law_shards_reassemble_in_any_order(
    pending: Map<u32, PartialView>,
    packet_index: u32,
    payload: Seq<u8>,
    size: nat,
    order: Seq<int>,
    times: Seq<u64>,
)
    requires
        size > 0,
        payload.len() <= usize::MAX,
        shard_count(payload.len(), size) <= u32::MAX,
        pending.dom().finite(),
        pending.len() < PENDING_PACKET_LIMIT,
        !pending.contains_key(packet_index),
        order.len() == shard_count(payload.len(), size),
        times.len() == order.len(),
        order.no_duplicates(),
        forall|i: int|
            0 <= i < order.len() ==> 0 <= #[trigger] order[i] < shard_count(payload.len(), size),
    ensures
        after_order(pending, packet_index, payload, size, order, times) == (pending, Some(payload)),
        forall|taken: int|
            0 <= taken < order.len() ==> (#[trigger] after_order(
                pending,
                packet_index,
                payload,
                size,
                order.take(taken),
                times.take(taken),
            )).1 is None,
{
    lemma_shard_count_positive(payload.len(), size);
    lemma_after_order(pending, packet_index, payload, size, order, times);
    assert forall|taken: int| 0 <= taken < order.len() implies (#[trigger] after_order(
        pending,
        packet_index,
        payload,
        size,
        order.take(taken),
        times.take(taken),
    )).1 is None by {
        let head = order.take(taken);
        if taken > 0 {
            assert(forall|i: int| 0 <= i < taken ==> head[i] == #[trigger] order[i]);
            assert(head.no_duplicates());
            lemma_after_order(pending, packet_index, payload, size, head, times.take(taken));
        }
    }
}

/// The datagrams of a packet carry its shards: what a receiver reads from datagram `index` is
/// shard `index` of that packet on that stream.
pub proof fn law_datagrams_carry_shards(
    stream_id: u16,
    packet_index: u32,
    payload: Seq<u8>,
    size: nat,
    index: int,
)
    requires
        size > 0,
        shard_count(payload.len(), size) <= u32::MAX,
        0 <= index < shard_count(payload.len(), size),
    ensures
        ({
            let datagram = shards_of(stream_id, packet_index, payload, size)[index];
            let prefix = prefix_of(datagram);
            let shard = nth_shard(packet_index, payload, size, index);
            &&& prefix.stream_id == stream_id
            &&& prefix.packet_index == shard.packet_index
            &&& prefix.shards_count == shard.shards_count
            &&& prefix.shard_index == shard.shard_index
            &&& datagram.skip(ALVR_STREAM_SHARD_PREFIX_SIZE as int) == shard.share
            &&& datagram.len() <= ALVR_STREAM_SHARD_PREFIX_SIZE + size
        }),
{
    let count = shard_count(payload.len(), size);
    lemma_shard_datagram_round_trip(
        ShardPrefix {
            stream_id,
            packet_index,
            shards_count: count as u32,
            shard_index: index as u32,
        },
        shard_share(payload, size, index),
    );
    lemma_shard_bounds(payload.len(), size, index);
    assert((index + 1) * size == index * size + size) by (nonlinear_arith);
}

/// A shard that was already taken changes nothing and completes nothing, however often it is
/// repeated.
pub proof fn law_repeated_shard_is_ignored(
    pending: Map<u32, PartialView>,
    size: nat,
    shard: ShardView,
    now_ns: u64,
)
    requires
        pending.len() <= PENDING_PACKET_LIMIT,
        pending.contains_key(shard.packet_index),
        shard.shard_index < shard.shards_count,
        pending[shard.packet_index].received[shard.shard_index as int],
    ensures
        after_shard(pending, size, shard, now_ns) == (pending, None::<Seq<u8>>),
{
    assert(pending.insert(shard.packet_index, pending[shard.packet_index]) =~= pending);
}

// ---------------------------------------------------------------------------
// Packets among others
// ---------------------------------------------------------------------------

/// The pending packets, and what the last shard completed, after shards of any packets arrived,
/// at the times `times`.
pub open spec fn after_shards(
    pending: Map<u32, PartialView>,
    size: nat,
    shards: Seq<ShardView>,
    times: Seq<u64>,
) -> (Map<u32, PartialView>, Option<Seq<u8>>)
    decreases shards.len(),
{
    if shards.len() == 0 {
        (pending, None)
    } else {
        after_shard(
            after_shards(pending, size, shards.drop_last(), times.drop_last()).0,
            size,
            shards.last(),
            times.last(),
        )
    }
}

/// Shard `index` of a packet is among the shards.
pub open spec fn brought(shards: Seq<ShardView>, packet_index: u32, index: int) -> bool {
    exists|j: int|
        0 <= j < shards.len() && (#[trigger] shards[j]).packet_index == packet_index
            && shards[j].shard_index == index
}

/// Every shard of a packet is among the shards.
pub open spec fn all_brought(shards: Seq<ShardView>, packet_index: u32, count: nat) -> bool {
    forall|index: int| 0 <= index < count ==> #[trigger] brought(shards, packet_index, index)
}

/// The shards that carry the packet's index are shards of `payload`.
pub open spec fn carries(
    shards: Seq<ShardView>,
    packet_index: u32,
    payload: Seq<u8>,
    size: nat,
) -> bool {
    forall|j: int|
        0 <= j < shards.len() && (#[trigger] shards[j]).packet_index == packet_index ==> {
            &&& shards[j].shard_index < shard_count(payload.len(), size)
            &&& shards[j] == nth_shard(packet_index, payload, size, shards[j].shard_index as int)
        }
}

/// No more packets than the limit are pending whenever a shard arrives, so that none is dropped.
pub open spec fn stays_within_limit(
    pending: Map<u32, PartialView>,
    size: nat,
    shards: Seq<ShardView>,
    times: Seq<u64>,
) -> bool {
    forall|j: int|
        0 <= j < shards.len() ==> (#[trigger] after_shards(
            pending,
            size,
            shards.take(j),
            times.take(j),
        )).0.len() <= PENDING_PACKET_LIMIT
}

/// The shards of a packet among the shards, each once, in the order in which they came first.
spec fn first_arrivals(shards: Seq<ShardView>, packet_index: u32) -> Seq<int>
    decreases shards.len(),
{
    if shards.len() == 0 {
        Seq::empty()
    } else {
        let earlier = first_arrivals(shards.drop_last(), packet_index);
        let index = shards.last().shard_index as int;
        if shards.last().packet_index == packet_index && !earlier.contains(index) {
            earlier.push(index)
        } else {
            earlier
        }
    }
}

proof fn lemma_first_arrivals(shards: Seq<ShardView>, packet_index: u32, index: int)
    ensures
        first_arrivals(shards, packet_index).contains(index) == brought(
            shards,
            packet_index,
            index,
        ),
    decreases shards.len(),
{
    if shards.len() > 0 {
        let rest = shards.drop_last();
        let earlier = first_arrivals(rest, packet_index);
        let last = shards.last().shard_index as int;
        lemma_first_arrivals(rest, packet_index, index);
        lemma_first_arrivals(rest, packet_index, last);
        assert(earlier.push(last).contains(index) == (earlier.contains(index) || index == last)) by {
            assert(earlier.push(last)[earlier.len() as int] == last);
            if earlier.contains(index) {
                let at = choose|at: int| 0 <= at < earlier.len() && earlier[at] == index;
                assert(earlier.push(last)[at] == index);
            }
        }
        if brought(rest, packet_index, index) {
            let j = choose|j: int|
                0 <= j < rest.len() && (#[trigger] rest[j]).packet_index == packet_index
                    && rest[j].shard_index == index;
            assert(shards[j].packet_index == packet_index);
        }
        if brought(shards, packet_index, index) {
            let j = choose|j: int|
                0 <= j < shards.len() && (#[trigger] shards[j]).packet_index == packet_index
                    && shards[j].shard_index == index;
            if j < rest.len() {
                assert(rest[j].packet_index == packet_index);
            }
        }
        if shards.last().packet_index == packet_index && index == last {
            assert(shards[shards.len() - 1].packet_index == packet_index);
        }
    }
}

proof fn lemma_marked_all(received: Seq<bool>)
    requires
        forall|i: int| 0 <= i < received.len() ==> received[i],
    ensures
        marked(received) == received.len(),
    decreases received.len(),
{
    if received.len() > 0 {
        lemma_marked_all(received.drop_last());
    }
}

/// What becomes of a packet while a shard of it arrives.
proof fn lemma_own_shard(
    before: Map<u32, PartialView>,
    size: nat,
    rest: Seq<ShardView>,
    shard: ShardView,
    now_ns: u64,
    payload: Seq<u8>,
)
    requires
        size > 0,
        payload.len() <= usize::MAX,
        shard_count(payload.len(), size) <= u32::MAX,
        before.len() <= PENDING_PACKET_LIMIT,
        shard.shard_index < shard_count(payload.len(), size),
        shard == nth_shard(shard.packet_index, payload, size, shard.shard_index as int),
        !all_brought(rest, shard.packet_index, shard_count(payload.len(), size)),
        before.contains_key(shard.packet_index) == (first_arrivals(
            rest,
            shard.packet_index,
        ).len() > 0),
        before.contains_key(shard.packet_index) ==> holds_shards(
            before[shard.packet_index],
            payload,
            size,
            first_arrivals(rest, shard.packet_index),
        ),
    ensures
        ({
            let after = after_shard(before, size, shard, now_ns);
            let shards = rest.push(shard);
            if all_brought(shards, shard.packet_index, shard_count(payload.len(), size)) {
                after.1 == Some(payload) && !after.0.contains_key(shard.packet_index)
            } else {
                &&& after.1 is None
                &&& after.0.contains_key(shard.packet_index)
                &&& first_arrivals(shards, shard.packet_index).len() > 0
                &&& holds_shards(
                    after.0[shard.packet_index],
                    payload,
                    size,
                    first_arrivals(shards, shard.packet_index),
                )
            }
        }),
{
    let count = shard_count(payload.len(), size);
    let packet_index = shard.packet_index;
    let index = shard.shard_index as int;
    let shards = rest.push(shard);
    let earlier = first_arrivals(rest, packet_index);
    let order = first_arrivals(shards, packet_index);
    let partial = partial_for(before, shard, now_ns);
    assert(shards.drop_last() =~= rest);
    assert(pruned(before, now_ns) == before);
    if !before.contains_key(packet_index) {
        lemma_marked_none(count);
        assert(earlier =~= Seq::empty());
    }
    assert(holds_shards(partial, payload, size, earlier));
    if earlier.contains(index) {
        assert(partial.received[index]);
        assert(!takes_shard(partial, shard, size));
        assert(order == earlier);
        assert(before.insert(packet_index, partial)[packet_index] == partial);
        let missing = choose|i: int| 0 <= i < count && !#[trigger] brought(rest, packet_index, i);
        lemma_first_arrivals(rest, packet_index, missing);
        lemma_first_arrivals(shards, packet_index, missing);
        assert(!brought(shards, packet_index, missing));
    } else {
        assert(order == earlier.push(index));
        lemma_holds_shards_step(partial, payload, size, earlier, index);
        assert(takes_shard(partial, shard, size));
        let filled = with_shard(partial, shard.shard_index, size, shard.share);
        assert(holds_shards(filled, payload, size, order));
        lemma_marked_bounds(filled.received);
        if filled.received_count == filled.shards_count {
            assert forall|i: int| 0 <= i < count implies #[trigger] brought(
                shards,
                packet_index,
                i,
            ) by {
                assert(filled.received[i]);
                lemma_first_arrivals(shards, packet_index, i);
            }
            lemma_full_holds_payload(filled, payload, size, order);
        } else if all_brought(shards, packet_index, count) {
            assert forall|i: int| 0 <= i < filled.received.len() implies filled.received[i] by {
                assert(brought(shards, packet_index, i));
                lemma_first_arrivals(shards, packet_index, i);
            }
            lemma_marked_all(filled.received);
        }
    }
}

/// While a shard is missing, what arrived of a packet is held as it came, whatever else arrives.
proof fn lemma_after_shards(
    pending: Map<u32, PartialView>,
    size: nat,
    shards: Seq<ShardView>,
    times: Seq<u64>,
    packet_index: u32,
    payload: Seq<u8>,
)
    requires
        size > 0,
        payload.len() <= usize::MAX,
        shard_count(payload.len(), size) <= u32::MAX,
        times.len() == shards.len(),
        !pending.contains_key(packet_index),
        carries(shards, packet_index, payload, size),
        stays_within_limit(pending, size, shards, times),
        !all_brought(shards, packet_index, shard_count(payload.len(), size)),
    ensures
        ({
            let after = after_shards(pending, size, shards, times).0;
            let order = first_arrivals(shards, packet_index);
            &&& after.contains_key(packet_index) == (order.len() > 0)
            &&& after.contains_key(packet_index) ==> holds_shards(
                after[packet_index],
                payload,
                size,
                order,
            )
        }),
    decreases shards.len(),
{
    if shards.len() > 0 {
        let rest = shards.drop_last();
        let shard = shards.last();
        let before = after_shards(pending, size, rest, times.drop_last()).0;
        lemma_prefix(pending, size, shards, times, packet_index, payload);
        lemma_after_shards(pending, size, rest, times.drop_last(), packet_index, payload);
        if shard.packet_index == packet_index {
            assert(shards[shards.len() - 1] == shard);
            assert(rest.push(shard) =~= shards);
            lemma_own_shard(before, size, rest, shard, times.last(), payload);
        } else {
            assert(pruned(before, times.last()) == before);
        }
    }
}

/// What holds of the shards holds of all but the last.
proof fn lemma_prefix(
    pending: Map<u32, PartialView>,
    size: nat,
    shards: Seq<ShardView>,
    times: Seq<u64>,
    packet_index: u32,
    payload: Seq<u8>,
)
    requires
        shards.len() > 0,
        times.len() == shards.len(),
        carries(shards, packet_index, payload, size),
        stays_within_limit(pending, size, shards, times),
    ensures
        carries(shards.drop_last(), packet_index, payload, size),
        stays_within_limit(pending, size, shards.drop_last(), times.drop_last()),
        after_shards(pending, size, shards.drop_last(), times.drop_last()).0.len()
            <= PENDING_PACKET_LIMIT,
        forall|count: nat|
            !all_brought(shards, packet_index, count) ==> !all_brought(
                shards.drop_last(),
                packet_index,
                count,
            ),
{
    let rest = shards.drop_last();
    let earlier = times.drop_last();
    assert forall|j: int| 0 <= j < rest.len() implies (#[trigger] after_shards(
        pending,
        size,
        rest.take(j),
        earlier.take(j),
    )).0.len() <= PENDING_PACKET_LIMIT by {
        assert(rest.take(j) =~= shards.take(j));
        assert(earlier.take(j) =~= times.take(j));
    }
    assert(shards.take(rest.len() as int) =~= rest);
    assert(times.take(rest.len() as int) =~= earlier);
    assert(after_shards(
        pending,
        size,
        shards.take(rest.len() as int),
        times.take(rest.len() as int),
    ).0.len() <= PENDING_PACKET_LIMIT);
    assert(forall|j: int| 0 <= j < rest.len() ==> #[trigger] rest[j] == shards[j]);
    assert forall|index: int| #[trigger] brought(rest, packet_index, index) implies brought(
        shards,
        packet_index,
        index,
    ) by {
        let j = choose|j: int|
            0 <= j < rest.len() && (#[trigger] rest[j]).packet_index == packet_index
                && rest[j].shard_index == index;
        assert(shards[j].packet_index == packet_index);
    }
    assert forall|count: nat| !all_brought(shards, packet_index, count) implies !all_brought(
        rest,
        packet_index,
        count,
    ) by {
        let missing = choose|i: int| 0 <= i < count && !#[trigger] brought(shards, packet_index, i);
        assert(!brought(rest, packet_index, missing));
    }
}

/// A packet is handed out exactly when its last missing shard arrives, and whole. Its shards may
/// come in any order and repeatedly, and shards of other packets may come in between, as long as
/// no more packets than the limit are pending. `shards` are all the shards up to one of this
/// packet, before which one was missing.
pub proof fn law_packets_are_delivered_when_complete(
    pending: Map<u32, PartialView>,
    size: nat,
    shards: Seq<ShardView>,
    times: Seq<u64>,
    packet_index: u32,
    payload: Seq<u8>,
)
    requires
        size > 0,
        payload.len() <= usize::MAX,
        shard_count(payload.len(), size) <= u32::MAX,
        times.len() == shards.len(),
        !pending.contains_key(packet_index),
        carries(shards, packet_index, payload, size),
        stays_within_limit(pending, size, shards, times),
        shards.len() > 0,
        shards.last().packet_index == packet_index,
        !all_brought(shards.drop_last(), packet_index, shard_count(payload.len(), size)),
    ensures
        after_shards(pending, size, shards, times).1 == if all_brought(
            shards,
            packet_index,
            shard_count(payload.len(), size),
        ) {
            Some(payload)
        } else {
            None
        },
        after_shards(pending, size, shards, times).0.contains_key(packet_index) == !all_brought(
            shards,
            packet_index,
            shard_count(payload.len(), size),
        ),
{
    let rest = shards.drop_last();
    let shard = shards.last();
    let before = after_shards(pending, size, rest, times.drop_last()).0;
    lemma_prefix(pending, size, shards, times, packet_index, payload);
    lemma_after_shards(pending, size, rest, times.drop_last(), packet_index, payload);
    assert(shards[shards.len() - 1] == shard);
    assert(rest.push(shard) =~= shards);
    lemma_own_shard(before, size, rest, shard, times.last(), payload);
}

// ---------------------------------------------------------------------------
// Assemblers
// ---------------------------------------------------------------------------

/// Collects the shards of packets whose bytes are handed out as they are.
#[derive(Debug)]
pub struct RawPacketAssembler {
    pub packets: HashMap<u32, PartialPacket>,
    pub max_shard_data_size: usize,
    pub completed_count: u64,
}

impl RawPacketAssembler {
    /// Every pending packet is well formed.
    pub open spec fn well_formed(self) -> bool {
        pending_well_formed(pending_of(self.packets@))
    }

    /// An assembler with nothing pending, for shards of up to `max_shard_data_size` bytes.
    pub fn new(max_shard_data_size: usize) -> (assembler: Self)
        ensures
            assembler.well_formed(),
            assembler.packets@ == Map::<u32, PartialPacket>::empty(),
            assembler.max_shard_data_size == max_shard_data_size,
            assembler.completed_count == 0,
    {
        RawPacketAssembler { packets: HashMap::new(), max_shard_data_size, completed_count: 0 }
    }

    /// Takes one shard, and hands out the packet that it completes.
    pub fn push(
        &mut self,
        packet_index: u32,
        shards_count: u32,
        shard_index: u32,
        share: &[u8],
        now_ns: u64,
    ) -> (completed: Option<Vec<u8>>)
        requires
            old(self).well_formed(),
            old(self).completed_count < u64::MAX,
        ensures
            final(self).well_formed(),
            final(self).max_shard_data_size == old(self).max_shard_data_size,
            pending_of(final(self).packets@) == after_shard(
                pending_of(old(self).packets@),
                old(self).max_shard_data_size as nat,
                (ShardView { packet_index, shards_count, shard_index, share: share@ }),
                now_ns,
            ).0,
            match (
                completed,
                after_shard(
                    pending_of(old(self).packets@),
                    old(self).max_shard_data_size as nat,
                    (ShardView { packet_index, shards_count, shard_index, share: share@ }),
                    now_ns,
                ).1,
            ) {
                (Some(bytes), Some(expected)) => bytes@ == expected && final(self).completed_count
                    == old(self).completed_count + 1,
                (None, None) => final(self).completed_count == old(self).completed_count,
                _ => false,
            },
    {
        let completed = collect_shard(
            &mut self.packets,
            self.max_shard_data_size,
            packet_index,
            shards_count,
            shard_index,
            share,
            now_ns,
        );
        if completed.is_some() {
            self.completed_count = self.completed_count + 1;
        }
        completed
    }

    /// Number of packets handed out so far.
    pub fn completed_count(&self) -> (count: u64)
        ensures
            count == self.completed_count,
    {
        self.completed_count
    }
}

/// Header in front of every video packet. Each view's pose and field of view is held as the
/// little-endian bytes of its eleven floating-point numbers.
#[derive(Clone, Copy, Debug, PartialEq, Eq)]
pub struct VideoPacketHeader {
    pub timestamp_ns: u128,
    pub global_view_params: [[[u8; 4]; 11]; 2],
    pub is_idr: bool,
}

/// The header that bincode decodes at the start of `bytes`, and the number of bytes it takes up.
pub uninterp spec fn video_header_decode(bytes: Seq<u8>) -> Option<(VideoPacketHeader, nat)>;

/// Calls `bincode::serde::decode_from_slice` with the standard configuration on a timestamp, two
/// views of eleven four-byte numbers and a flag. Claims that the outcome is a function of the
/// bytes, and that a decoded header lies within them; the encoding itself is left to bincode.
#[verifier::external_body]
fn decode_video_header(bytes: &[u8]) -> (decoded: Option<(VideoPacketHeader, usize)>)
    ensures
        match decoded {
            Some((header, consumed)) => {
                &&& video_header_decode(bytes@) == Some((header, consumed as nat))
                &&& consumed <= bytes@.len()
            },
            None => video_header_decode(bytes@) is None,
        },
{
    match bincode::serde::decode_from_slice::<(std::time::Duration, [[[u8; 4]; 11]; 2], bool), _>(
        bytes,
        bincode::config::standard(),
    ) {
        Ok(((timestamp, global_view_params, is_idr), consumed)) => Some(
            (
                VideoPacketHeader { timestamp_ns: timestamp.as_nanos(), global_view_params, is_idr },
                consumed,
            ),
        ),
        Err(_) => None,
    }
}

/// The description of a decoded header in front of `length - consumed` payload bytes.
pub open spec fn packet_details(header: VideoPacketHeader, length: nat, consumed: nat) -> Seq<char> {
    "timestamp_ns="@ + decimal(header.timestamp_ns as nat) + " is_idr="@ + bool_text(header.is_idr)
        + " payload_bytes="@ + decimal(
        if consumed < length {
            (length - consumed) as nat
        } else {
            0
        },
    )
}

/// Describes a packet of `length` bytes whose header was decoded from its first `consumed` bytes.
pub fn describe_video_packet(header: &VideoPacketHeader, length: usize, consumed: usize) -> (text:
    String)
    ensures
        text@ == packet_details(*header, length as nat, consumed as nat),
{
    let mut text: String = "timestamp_ns=".to_owned();
    let timestamp: String = format_decimal(header.timestamp_ns);
    text.append(timestamp.as_str());
    text.append(" is_idr=");
    let is_idr: String = format_bool(header.is_idr);
    text.append(is_idr.as_str());
    text.append(" payload_bytes=");
    let remaining: usize = length.saturating_sub(consumed);
    let payload_bytes: String = format_decimal(remaining as u128);
    text.append(payload_bytes.as_str());
    text
}

/// Describes the video packet that starts with the bytes of one shard, where they hold a header.
pub fn decode_video_packet_details(data: &[u8]) -> (text: Option<String>)
    ensures
        match (text, video_header_decode(data@)) {
            (Some(text), Some((header, consumed))) => text@ == packet_details(
                header,
                data@.len(),
                consumed,
            ),
            (None, None) => true,
            _ => false,
        },
{
    match decode_video_header(data) {
        Some((header, consumed)) => Some(describe_video_packet(&header, data.len(), consumed)),
        None => None,
    }
}

/// A video packet of which every shard arrived.
#[derive(Clone, Debug)]
pub struct CompletedVideoPacket {
    pub header: VideoPacketHeader,
    pub payload_len: usize,
    pub payload: Vec<u8>,
    pub completed_count: u64,
}

/// Splits a completed packet into its header and its payload. `decoded` is the header at the
/// start of `data`, with the number of bytes it takes up; without one there is no packet.
pub fn finish_video_packet(
    data: &Vec<u8>,
    decoded: Option<(VideoPacketHeader, usize)>,
    completed_before: u64,
) -> (packet: Option<CompletedVideoPacket>)
    requires
        completed_before < u64::MAX,
        decoded matches Some((header, consumed)) ==> consumed <= data@.len(),
    ensures
        match (packet, decoded) {
            (Some(packet), Some((header, consumed))) => {
                &&& packet.header == header
                &&& packet.payload@ == data@.skip(consumed as int)
                &&& packet.payload_len == data@.len() - consumed
                &&& packet.completed_count == completed_before + 1
            },
            (None, None) => true,
            _ => false,
        },
{
    match decoded {
        Some((header, consumed)) => {
            let payload: Vec<u8> = copy_range(data.as_slice(), consumed, data.len());
            assert(payload@ =~= data@.skip(consumed as int));
            Some(
                CompletedVideoPacket {
                    header,
                    payload_len: payload.len(),
                    payload,
                    completed_count: completed_before + 1,
                },
            )
        },
        None => None,
    }
}

/// The header and the payload of the video packet that a shard completes: the bytes of the
/// completed packet, split behind the header. A packet without a header is dropped.
pub open spec fn completed_video(
    pending: Map<u32, PartialView>,
    size: nat,
    shard: ShardView,
    now_ns: u64,
) -> Option<(VideoPacketHeader, Seq<u8>)> {
    match after_shard(pending, size, shard, now_ns).1 {
        Some(data) => match video_header_decode(data) {
            Some((header, consumed)) => Some((header, data.skip(consumed as int))),
            None => None,
        },
        None => None,
    }
}

/// Collects the shards of video packets.
#[derive(Debug)]
pub struct VideoPacketAssembler {
    pub packets: HashMap<u32, PartialPacket>,
    pub max_shard_data_size: usize,
    pub completed_count: u64,
}

impl VideoPacketAssembler {
    /// Every pending packet is well formed.
    pub open spec fn well_formed(self) -> bool {
        pending_well_formed(pending_of(self.packets@))
    }

    /// An assembler with nothing pending, for shards of up to `max_shard_data_size` bytes.
    pub fn new(max_shard_data_size: usize) -> (assembler: Self)
        ensures
            assembler.well_formed(),
            assembler.packets@ == Map::<u32, PartialPacket>::empty(),
            assembler.max_shard_data_size == max_shard_data_size,
            assembler.completed_count == 0,
    {
        VideoPacketAssembler { packets: HashMap::new(), max_shard_data_size, completed_count: 0 }
    }

    /// Forgets every pending packet.
    pub fn clear(&mut self)
        ensures
            final(self).well_formed(),
            final(self).packets@ == Map::<u32, PartialPacket>::empty(),
            final(self).max_shard_data_size == old(self).max_shard_data_size,
            final(self).completed_count == old(self).completed_count,
    {
        self.packets.clear();
    }

    /// Takes one shard, and hands out the packet that it completes. A completed packet whose
    /// header cannot be decoded is dropped.
    pub fn push(
        &mut self,
        packet_index: u32,
        shards_count: u32,
        shard_index: u32,
        share: &[u8],
        now_ns: u64,
    ) -> (completed: Option<CompletedVideoPacket>)
        requires
            old(self).well_formed(),
            old(self).completed_count < u64::MAX,
        ensures
            final(self).well_formed(),
            final(self).max_shard_data_size == old(self).max_shard_data_size,
            pending_of(final(self).packets@) == after_shard(
                pending_of(old(self).packets@),
                old(self).max_shard_data_size as nat,
                (ShardView { packet_index, shards_count, shard_index, share: share@ }),
                now_ns,
            ).0,
            match (
                completed,
                completed_video(
                    pending_of(old(self).packets@),
                    old(self).max_shard_data_size as nat,
                    (ShardView { packet_index, shards_count, shard_index, share: share@ }),
                    now_ns,
                ),
            ) {
                (Some(packet), Some((header, payload))) => {
                    &&& packet.header == header
                    &&& packet.payload@ == payload
                    &&& packet.payload_len == payload.len()
                    &&& packet.completed_count == old(self).completed_count + 1
                    &&& final(self).completed_count == old(self).completed_count + 1
                },
                (None, None) => final(self).completed_count == old(self).completed_count,
                _ => false,
            },
    {
        let data = collect_shard(
            &mut self.packets,
            self.max_shard_data_size,
            packet_index,
            shards_count,
            shard_index,
            share,
            now_ns,
        );
        match data {
            Some(data) => {
                let decoded = decode_video_header(data.as_slice());
                let packet = finish_video_packet(&data, decoded, self.completed_count);
                if packet.is_some() {
                    self.completed_count = self.completed_count + 1;
                }
                packet
            },
            None => None,
        }
    }

    /// Number of packets handed out so far.
    pub fn completed_count(&self) -> (count: u64)
        ensures
            count == self.completed_count,
    {
        self.completed_count
    }
}

// ---------------------------------------------------------------------------
// Laws of the format
// ---------------------------------------------------------------------------

/// A datagram starts with the stream in two bytes, then the packet, the number of its shards and
/// the place of this shard in four bytes each, the low byte first.
pub proof fn law_prefixes_are_laid_out_in_order(datagram: Seq<u8>)
    requires
        datagram.len() >= 14,
    ensures
        ({
            let word = |at: int|
                datagram[at] + 256 * datagram[at + 1] + 65536 * datagram[at + 2] + 16777216
                    * datagram[at + 3];
            let prefix = prefix_of(datagram);
            &&& prefix.stream_id == datagram[0] + 256 * datagram[1]
            &&& prefix.packet_index == word(2)
            &&& prefix.shards_count == word(6)
            &&& prefix.shard_index == word(10)
        }),
{
}

/// A packet that is sent whole is one datagram: fourteen bytes that say so, then the packet. It is
/// sent exactly where that fits into the largest datagram.
pub proof fn law_whole_packets_are_one_datagram(
    stream_id: u16,
    packet_index: u32,
    payload: &[u8],
    max_packet_size: usize,
    datagram: Result<Vec<u8>, PacketError>,
)
    requires
        call_ensures(
            build_header_packet,
            (stream_id, packet_index, payload, max_packet_size),
            datagram,
        ),
    ensures
        datagram is Ok <==> 14 + payload@.len() <= max_packet_size,
        datagram matches Ok(bytes) ==> {
            &&& bytes@.len() == 14 + payload@.len()
            &&& bytes@.skip(14) == payload@
            &&& prefix_of(bytes@) == (ShardPrefix {
                stream_id,
                packet_index,
                shards_count: 1,
                shard_index: 0,
            })
        },
{
    if let Ok(bytes) = datagram {
        lemma_shard_datagram_round_trip(
            ShardPrefix { stream_id, packet_index, shards_count: 1, shard_index: 0 },
            payload@,
        );
    }
}

/// Shards follow each other without a gap: the first starts at the start of the packet, each
/// starts where the one before it ended, all but the last are full, the last ends with the packet,
/// and each holds its bytes in their order.
pub proof fn law_shards_follow_each_other(payload: Seq<u8>, size: nat, index: int)
    requires
        size > 0,
        0 <= index < shard_count(payload.len(), size),
    ensures
        ({
            let share = shard_share(payload, size, index);
            let last = index + 1 == shard_count(payload.len(), size);
            &&& share == payload.subrange(index * size, index * size + share.len())
            &&& !last ==> share.len() == size
            &&& last ==> share.len() <= size && index * size + share.len() == payload.len()
            &&& payload.len() > 0 ==> share.len() > 0
        }),
{
    lemma_shard_bounds(payload.len(), size, index);
    assert((index + 1) * size == index * size + size) by (nonlinear_arith);
    assert(0 <= index * size) by (nonlinear_arith)
        requires
            0 <= index,
    ;
}

/// A shard changes the packet that it belongs to and no other, as long as few packets are pending.
/// One that claims a place behind the end of its packet, or another number of shards than the
/// packet has, changes nothing at all.
pub proof fn law_shards_change_their_own_packet(
    pending: Map<u32, PartialView>,
    size: nat,
    shard: ShardView,
    now_ns: u64,
    other: u32,
)
    requires
        pending.dom().finite(),
        pending.len() <= 64,
    ensures
        ({
            let (after, completed) = after_shard(pending, size, shard, now_ns);
            &&& other != shard.packet_index ==> {
                &&& after.contains_key(other) == pending.contains_key(other)
                &&& pending.contains_key(other) ==> after[other] == pending[other]
            }
            &&& shard.shard_index >= shard.shards_count ==> after == pending && completed is None
            &&& pending.contains_key(shard.packet_index)
                && pending[shard.packet_index].shards_count != shard.shards_count ==> after
                == pending && completed is None
        }),
{
    let (after, completed) = after_shard(pending, size, shard, now_ns);
    if pending.contains_key(shard.packet_index) && pending[shard.packet_index].shards_count
        != shard.shards_count {
        assert(pending.insert(shard.packet_index, pending[shard.packet_index]) =~= pending);
    }
}

/// Once more than 64 packets are pending, those are dropped that were first seen more than two
/// seconds ago, and no others.
pub proof fn law_stale_packets_make_room(pending: Map<u32, PartialView>, now_ns: u64, index: u32)
    requires
        pending.contains_key(index),
        now_ns >= 2_000_000_000,
    ensures
        pending.len() > 64 ==> (pruned(pending, now_ns).contains_key(index)
            <==> pending[index].first_seen_ns + 2_000_000_000 >= now_ns),
        pending.len() <= 64 ==> pruned(pending, now_ns) == pending,
        pruned(pending, now_ns).contains_key(index) ==> pruned(pending, now_ns)[index]
            == pending[index],
{
}

/// A packet keeps the time at which its first shard came and the bytes that it has; a shard is
/// written at its own place.
pub proof fn law_shards_are_written_in_place(
    partial: PartialView,
    index: u32,
    size: nat,
    share: Seq<u8>,
    at: int,
)
    requires
        0 <= at,
        index < partial.received.len(),
        partial.received_count < u32::MAX,
    ensures
        ({
            let after = with_shard(partial, index, size, share);
            let start = index * size;
            &&& after.received[index as int]
            &&& after.received_count == partial.received_count + 1
            &&& after.shards_count == partial.shards_count
            &&& after.first_seen_ns == partial.first_seen_ns
            &&& start <= at < start + share.len() ==> after.data[at] == share[at - start]
            &&& at < partial.data.len() && !(start <= at < start + share.len()) ==> after.data[at]
                == partial.data[at]
        }),
{
    assert(0 <= index * size) by (nonlinear_arith);
}

/// A completed video packet is split behind its header: what the header does not take up is the
/// payload, whole and in order.
pub proof fn law_payload_follows_the_header(
    data: Vec<u8>,
    header: VideoPacketHeader,
    consumed: usize,
    completed_before: u64,
    packet: Option<CompletedVideoPacket>,
)
    requires
        call_ensures(
            finish_video_packet,
            (&data, Some((header, consumed)), completed_before),
            packet,
        ),
        consumed <= data@.len(),
    ensures
        packet matches Some(finished) && {
            &&& finished.header == header
            &&& data@.take(consumed as int) + finished.payload@ == data@
            &&& finished.payload_len == finished.payload@.len()
            &&& finished.completed_count == completed_before + 1
        },
{
    assert(data@.take(consumed as int) + data@.skip(consumed as int) =~= data@);
}

/// A description names the time, whether the packet is a key frame, and the bytes behind the
/// header.
pub proof fn law_descriptions_name_the_packet(
    header: VideoPacketHeader,
    length: nat,
    consumed: nat,
)
    requires
        consumed <= length,
    ensures
        packet_details(header, length, consumed) == "timestamp_ns="@ + decimal(
            header.timestamp_ns as nat,
        ) + " is_idr="@ + (if header.is_idr { "true"@ } else { "false"@ }) + " payload_bytes="@
            + decimal((length - consumed) as nat),
{
}

/// A packet of one shard is delivered as soon as it arrives, byte for byte, and counted. Nothing of
/// it is kept.
pub proof fn law_single_shards_are_delivered_at_once(
    packet_index: u32,
    share: &[u8],
    now_ns: u64,
    completed: Option<Vec<u8>>,
)
    requires
        share@.len() <= usize::MAX,
    ensures
        forall|assembler: &mut RawPacketAssembler|
            (*assembler).well_formed() && (*assembler).completed_count < u64::MAX
                && !(*assembler).packets@.contains_key(packet_index) && #[trigger] call_ensures(
                RawPacketAssembler::push,
                (assembler, packet_index, 1u32, 0u32, share, now_ns),
                completed,
            ) ==> {
                &&& completed is Some && completed->0@ == share@
                &&& final(assembler).completed_count == (*assembler).completed_count + 1
                &&& !final(assembler).packets@.contains_key(packet_index)
                &&& final(assembler).max_shard_data_size == (*assembler).max_shard_data_size
            },
{
    assert forall|assembler: &mut RawPacketAssembler|
        (*assembler).well_formed() && (*assembler).completed_count < u64::MAX
            && !(*assembler).packets@.contains_key(packet_index) && #[trigger] call_ensures(
            RawPacketAssembler::push,
            (assembler, packet_index, 1u32, 0u32, share, now_ns),
            completed,
        ) implies {
        &&& completed is Some && completed->0@ == share@
        &&& final(assembler).completed_count == (*assembler).completed_count + 1
        &&& !final(assembler).packets@.contains_key(packet_index)
        &&& final(assembler).max_shard_data_size == (*assembler).max_shard_data_size
    } by {
        let pending = pending_of((*assembler).packets@);
        let size = (*assembler).max_shard_data_size as nat;
        let shard = ShardView { packet_index, shards_count: 1, shard_index: 0, share: share@ };
        let kept = pruned(pending, now_ns);
        assert(!kept.contains_key(packet_index));
        let partial = fresh_partial(1, now_ns);
        assert(0 * size == 0) by (nonlinear_arith);
        assert(takes_shard(partial, shard, size));
        let filled = with_shard(partial, 0, size, share@);
        assert(filled.data =~= share@);
        assert(pending_of(final(assembler).packets@) == kept.remove(packet_index));
        assert(!pending_of(final(assembler).packets@).contains_key(packet_index));
    }
}

/// Assemblers start empty, with room for as much of a packet as they were told. Clearing forgets
/// what is pending and keeps the count.
pub proof fn law_assemblers_start_empty(
    size: usize,
    raw: RawPacketAssembler,
    video: VideoPacketAssembler,
)
    requires
        call_ensures(RawPacketAssembler::new, (size,), raw),
        call_ensures(VideoPacketAssembler::new, (size,), video),
    ensures
        raw.packets@.dom() == Set::<u32>::empty() && video.packets@.dom() == Set::<u32>::empty(),
        raw.max_shard_data_size == size && video.max_shard_data_size == size,
        raw.completed_count == 0 && video.completed_count == 0,
        forall|assembler: &mut VideoPacketAssembler| #[trigger]
            call_ensures(VideoPacketAssembler::clear, (assembler,), ()) ==> {
                &&& final(assembler).packets@.dom() == Set::<u32>::empty()
                &&& final(assembler).completed_count == (*assembler).completed_count
                &&& final(assembler).max_shard_data_size == (*assembler).max_shard_data_size
            },
{
}

/// A video packet is delivered with the header that its bytes begin with and the payload that
/// follows, and counted where it is.
pub proof fn law_video_packets_bring_header_and_payload(
    packet_index: u32,
    shards_count: u32,
    shard_index: u32,
    share: &[u8],
    now_ns: u64,
    completed: Option<CompletedVideoPacket>,
)
    ensures
        forall|assembler: &mut VideoPacketAssembler|
            (*assembler).well_formed() && (*assembler).completed_count < u64::MAX && #[trigger]
                call_ensures(
                VideoPacketAssembler::push,
                (assembler, packet_index, shards_count, shard_index, share, now_ns),
                completed,
            ) ==> {
                let bytes = after_shard(
                    pending_of((*assembler).packets@),
                    (*assembler).max_shard_data_size as nat,
                    (ShardView { packet_index, shards_count, shard_index, share: share@ }),
                    now_ns,
                ).1;
                &&& completed is Some ==> {
                    &&& bytes is Some && video_header_decode(bytes->0) is Some
                    &&& completed->0.header == (video_header_decode(bytes->0)->0).0
                    &&& completed->0.payload@ == bytes->0.skip(
                        (video_header_decode(bytes->0)->0).1 as int,
                    )
                    &&& completed->0.payload_len == completed->0.payload@.len()
                    &&& completed->0.completed_count == (*assembler).completed_count + 1
                    &&& final(assembler).completed_count == (*assembler).completed_count + 1
                }
                &&& completed is None ==> final(assembler).completed_count
                    == (*assembler).completed_count
                &&& bytes is None ==> completed is None
            },
{
}

/// A payload is split exactly where a datagram has room behind its 14 bytes and the shards can be
/// counted.
pub proof fn law_payloads_are_split_where_there_is_room(
    stream_id: u16,
    packet_index: u32,
    payload: &[u8],
    max_packet_size: usize,
    shards: Result<Vec<Vec<u8>>, PacketError>,
)
    requires
        call_ensures(
            split_stream_payload,
            (stream_id, packet_index, payload, max_packet_size),
            shards,
        ),
    ensures
        max_packet_size <= 14 <==> shards == Err::<Vec<Vec<u8>>, PacketError>(
            PacketError::NoRoomForData,
        ),
        shards is Ok ==> byte_views(shards->Ok_0@) == shards_of(
            stream_id,
            packet_index,
            payload@,
            (max_packet_size - 14) as nat,
        ),
        shards is Err && max_packet_size > 14 ==> shards->Err_0 == PacketError::TooManyShards,
{
}

/// A shard that is built is read back: its stream, its packet, its place, and its bytes.
pub proof fn law_built_shards_are_read_back(
    prefix: ShardPrefix,
    share: &[u8],
    datagram: Vec<u8>,
    slice: &[u8],
    read: ShardPrefix,
)
    requires
        call_ensures(build_shard, (prefix, share), datagram),
        slice@ == datagram@,
        call_ensures(read_shard_prefix, (slice,), read),
    ensures
        datagram@.len() == 14 + share@.len(),
        datagram@.skip(14) == share@,
        read == prefix,
        datagram@[0] + 256 * datagram@[1] == prefix.stream_id,
{
    lemma_shard_datagram_round_trip(prefix, share@);
    law_prefixes_are_laid_out_in_order(datagram@);
}

} // verus!
