//! Little-endian integers in byte sequences.

use vstd::prelude::*;
use vstd::slice::slice_subrange;

verus! {

/// The 16-bit little-endian integer at `at`.
pub open spec fn le16_at(bytes: Seq<u8>, at: int) -> int {
    bytes[at] + 0x100 * bytes[at + 1]
}

/// The 32-bit little-endian integer at `at`.
pub open spec fn le32_at(bytes: Seq<u8>, at: int) -> int {
    le16_at(bytes, at) + 0x1_0000 * le16_at(bytes, at + 2)
}

/// The 64-bit little-endian integer at `at`.
pub open spec fn le64_at(bytes: Seq<u8>, at: int) -> int {
    le32_at(bytes, at) + 0x1_0000_0000 * le32_at(bytes, at + 4)
}

/// The two bytes of a 16-bit integer, least significant first.
pub open spec fn le16(value: u16) -> Seq<u8> {
    seq![(value % 0x100) as u8, (value / 0x100) as u8]
}

/// The four bytes of a 32-bit integer, least significant first.
pub open spec fn le32(value: u32) -> Seq<u8> {
    le16((value % 0x1_0000) as u16) + le16((value / 0x1_0000) as u16)
}

/// The eight bytes of a 64-bit integer, least significant first.
pub open spec fn le64(value: u64) -> Seq<u8> {
    le32((value % 0x1_0000_0000) as u32) + le32((value / 0x1_0000_0000) as u32)
}

/// Reading back a written 16-bit integer gives it back, at any offset of a longer sequence.
pub proof fn lemma_le16_round_trip(value: u16, bytes: Seq<u8>, at: int)
    requires
        0 <= at,
        at + 2 <= bytes.len(),
        bytes.subrange(at, at + 2) == le16(value),
    ensures
        le16_at(bytes, at) == value,
{
    assert(bytes[at] == bytes.subrange(at, at + 2)[0]);
    assert(bytes[at + 1] == bytes.subrange(at, at + 2)[1]);
}

/// Reading back a written 32-bit integer gives it back, at any offset of a longer sequence.
pub proof fn lemma_le32_round_trip(value: u32, bytes: Seq<u8>, at: int)
    requires
        0 <= at,
        at + 4 <= bytes.len(),
        bytes.subrange(at, at + 4) == le32(value),
    ensures
        le32_at(bytes, at) == value,
{
    let low = (value % 0x1_0000) as u16;
    let high = (value / 0x1_0000) as u16;
    let word = bytes.subrange(at, at + 4);
    assert(bytes.subrange(at, at + 2) =~= le16(low)) by {
        assert(forall|i: int| 0 <= i < 2 ==> bytes[at + i] == #[trigger] word[i]);
    }
    assert(bytes.subrange(at + 2, at + 4) =~= le16(high)) by {
        assert(forall|i: int| 0 <= i < 4 ==> bytes[at + i] == #[trigger] word[i]);
        assert(bytes[at + 2] == word[2]);
        assert(bytes[at + 3] == word[3]);
    }
    lemma_le16_round_trip(low, bytes, at);
    lemma_le16_round_trip(high, bytes, at + 2);
}

/// Reading back a written 64-bit integer gives it back, at any offset of a longer sequence.
pub proof fn lemma_le64_round_trip(value: u64, bytes: Seq<u8>, at: int)
    requires
        0 <= at,
        at + 8 <= bytes.len(),
        bytes.subrange(at, at + 8) == le64(value),
    ensures
        le64_at(bytes, at) == value,
{
    let low = (value % 0x1_0000_0000) as u32;
    let high = (value / 0x1_0000_0000) as u32;
    let word = bytes.subrange(at, at + 8);
    assert(bytes.subrange(at, at + 4) =~= le32(low)) by {
        assert(forall|i: int| 0 <= i < 4 ==> bytes[at + i] == #[trigger] word[i]);
        assert(forall|i: int| 0 <= i < 4 ==> word[i] == #[trigger] le32(low)[i]);
    }
    assert(bytes.subrange(at + 4, at + 8) =~= le32(high)) by {
        let tail = bytes.subrange(at + 4, at + 8);
        assert forall|i: int| 0 <= i < 4 implies #[trigger] tail[i] == le32(high)[i] by {
            assert(tail[i] == word[4 + i]);
        }
    }
    lemma_le32_round_trip(low, bytes, at);
    lemma_le32_round_trip(high, bytes, at + 4);
}

/// Reads the 16-bit little-endian integer at `at`.
pub fn read_u16_le(bytes: &[u8], at: usize) -> (value: u16)
    requires
        at + 2 <= bytes.len(),
    ensures
        value == le16_at(bytes@, at as int),
{
    (bytes[at] as u16) + 0x100 * (bytes[at + 1] as u16)
}

/// Reads the 32-bit little-endian integer at `at`.
pub fn read_u32_le(bytes: &[u8], at: usize) -> (value: u32)
    requires
        at + 4 <= bytes.len(),
    ensures
        value == le32_at(bytes@, at as int),
{
    (read_u16_le(bytes, at) as u32) + 0x1_0000 * (read_u16_le(bytes, at + 2) as u32)
}

/// Reads the 64-bit little-endian integer at `at`.
pub fn read_u64_le(bytes: &[u8], at: usize) -> (value: u64)
    requires
        at + 8 <= bytes.len(),
    ensures
        value == le64_at(bytes@, at as int),
{
    (read_u32_le(bytes, at) as u64) + 0x1_0000_0000 * (read_u32_le(bytes, at + 4) as u64)
}

/// Appends a 16-bit integer, least significant byte first.
pub fn push_u16_le(out: &mut Vec<u8>, value: u16)
    ensures
        final(out)@ == old(out)@ + le16(value),
{
    out.push((value % 0x100) as u8);
    out.push((value / 0x100) as u8);
    assert(out@ =~= old(out)@ + le16(value));
}

/// Appends a 32-bit integer, least significant byte first.
pub fn push_u32_le(out: &mut Vec<u8>, value: u32)
    ensures
        final(out)@ == old(out)@ + le32(value),
{
    push_u16_le(out, (value % 0x1_0000) as u16);
    push_u16_le(out, (value / 0x1_0000) as u16);
    assert(out@ =~= old(out)@ + le32(value));
}

/// Appends a 64-bit integer, least significant byte first.
pub fn push_u64_le(out: &mut Vec<u8>, value: u64)
    ensures
        final(out)@ == old(out)@ + le64(value),
{
    push_u32_le(out, (value % 0x1_0000_0000) as u32);
    push_u32_le(out, (value / 0x1_0000_0000) as u32);
    assert(out@ =~= old(out)@ + le64(value));
}

/// Appends a copy of `bytes`.
pub fn push_bytes(out: &mut Vec<u8>, bytes: &[u8])
    ensures
        final(out)@ == old(out)@ + bytes@,
{
    out.extend_from_slice(bytes);
    assert(out@ =~= old(out)@ + bytes@);
}

/// Whether two byte slices hold the same bytes.
pub fn same_bytes(left: &[u8], right: &[u8]) -> (same: bool)
    ensures
        same == (left@ == right@),
{
    if left.len() != right.len() {
        return false;
    }
    let mut index: usize = 0;
    while index < left.len()
        invariant
            index <= left@.len(),
            left@.len() == right@.len(),
            forall|i: int| 0 <= i < index ==> left@[i] == right@[i],
        decreases left@.len() - index,
    {
        if left[index] != right[index] {
            return false;
        }
        index = index + 1;
    }
    assert(left@ =~= right@);
    true
}

/// Copies the bytes from `start` up to `end`.
pub fn copy_range(bytes: &[u8], start: usize, end: usize) -> (copy: Vec<u8>)
    requires
        start <= end <= bytes@.len(),
    ensures
        copy@ == bytes@.subrange(start as int, end as int),
{
    let mut copy: Vec<u8> = Vec::with_capacity(end - start);
    push_bytes(&mut copy, slice_subrange(bytes, start, end));
    assert(copy@ =~= bytes@.subrange(start as int, end as int));
    copy
}

/// The low byte comes first: an integer is the sum of its bytes, each weighing 256 times as much
/// as the one before it.
pub proof fn law_low_byte_comes_first(bytes: Seq<u8>, at: int)
    ensures
        le16_at(bytes, at) == bytes[at] + 256 * bytes[at + 1],
        le32_at(bytes, at) == bytes[at] + 256 * bytes[at + 1] + 65536 * bytes[at + 2] + 16777216
            * bytes[at + 3],
        le64_at(bytes, at) == le32_at(bytes, at) + 4294967296 * le32_at(bytes, at + 4),
{
}

/// A written integer starts with its low byte, and takes up as many bytes as its type.
pub proof fn law_low_byte_is_written_first(short: u16, word: u32, long: u64)
    ensures
        le16(short).len() == 2,
        le16(short)[0] == short % 256 && le16(short)[1] == short / 256,
        le32(word).len() == 4,
        le32(word)[0] == word % 256 && le32(word)[3] == word / 16777216,
        le64(long).len() == 8,
        le64(long)[0] == long % 256 && le64(long)[7] == long / 72057594037927936,
{
}

/// What is written is read back, wherever it stands, and nothing before it changes.
pub proof fn law_written_numbers_are_read_back(value: u32, slice: &[u8], read: u32, at: usize)
    requires
        at + 4 <= slice@.len(),
        call_ensures(read_u32_le, (slice, at), read),
    ensures
        forall|out: &mut Vec<u8>| #[trigger]
            call_ensures(push_u32_le, (out, value), ()) && slice@ == final(out)@ && at
                == (*out)@.len() ==> read == value && final(out)@.len() == (*out)@.len() + 4
                && final(out)@.take((*out)@.len() as int) == (*out)@,
        forall|out: &mut Vec<u8>, bytes: &[u8]| #[trigger]
            call_ensures(push_bytes, (out, bytes), ()) ==> final(out)@ == (*out)@ + bytes@,
{
    assert forall|out: &mut Vec<u8>| #[trigger]
        call_ensures(push_u32_le, (out, value), ()) && slice@ == final(out)@ && at
            == (*out)@.len() implies read == value && final(out)@.len() == (*out)@.len() + 4
        && final(out)@.take((*out)@.len() as int) == (*out)@ by {
        assert(slice@.subrange(at as int, at + 4) =~= le32(value));
        lemma_le32_round_trip(value, slice@, at as int);
        assert(final(out)@.take((*out)@.len() as int) =~= (*out)@);
    }
}

/// Bytes are the same where each of them is, and a copy holds those of its range.
pub proof fn law_copies_are_the_same(
    bytes: &[u8],
    start: usize,
    end: usize,
    copy: Vec<u8>,
    other: &[u8],
    same: bool,
    i: int,
)
    requires
        start <= end <= bytes@.len(),
        call_ensures(copy_range, (bytes, start, end), copy),
        call_ensures(same_bytes, (bytes, other), same),
        0 <= i < end - start,
    ensures
        copy@.len() == end - start,
        copy@[i] == bytes@[start + i],
        same <==> bytes@ == other@,
{
}

} // verus!
