//! Little-endian integers inside byte sequences.

use vstd::prelude::*;
use vstd::slice::slice_subrange;
use byteorder::{ByteOrder, LittleEndian, WriteBytesExt};

verus! {

/// The value of two bytes read as a little-endian integer.
pub open spec fn u16_le(s: Seq<u8>) -> int
    recommends
        s.len() == 2,
{
    s[0] as int + 256 * s[1] as int
}

/// The value of four bytes read as a little-endian integer.
pub open spec fn u32_le(s: Seq<u8>) -> int
    recommends
        s.len() == 4,
{
    s[0] as int + 256 * s[1] as int + 65536 * s[2] as int + 16777216 * s[3] as int
}

/// The value of eight bytes read as a little-endian integer.
pub open spec fn u64_le(s: Seq<u8>) -> int
    recommends
        s.len() == 8,
{
    u32_le(s.subrange(0, 4)) + 4294967296 * u32_le(s.subrange(4, 8))
}

/// The two bytes that hold a 16-bit integer in little-endian order.
#[verifier::opaque]
pub open spec fn u16_le_bytes(v: u16) -> Seq<u8> {
    seq![(v as int % 256) as u8, (v as int / 256) as u8]
}

/// The four bytes that hold a 32-bit integer in little-endian order.
#[verifier::opaque]
pub open spec fn u32_le_bytes(v: u32) -> Seq<u8> {
    seq![
        (v as int % 256) as u8,
        (v as int / 256 % 256) as u8,
        (v as int / 65536 % 256) as u8,
        (v as int / 16777216) as u8,
    ]
}

/// The eight bytes that hold a 64-bit integer in little-endian order.
#[verifier::opaque]
pub open spec fn u64_le_bytes(v: u64) -> Seq<u8> {
    u32_le_bytes((v as int % 4294967296) as u32) + u32_le_bytes((v as int / 4294967296) as u32)
}

/// The 16-bit little-endian integer that starts at `pos`.
#[verifier::opaque]
pub open spec fn u16_at(s: Seq<u8>, pos: int) -> u16
    recommends
        0 <= pos,
        pos + 2 <= s.len(),
{
    u16_le(s.subrange(pos, pos + 2)) as u16
}

/// The 32-bit little-endian integer that starts at `pos`.
#[verifier::opaque]
pub open spec fn u32_at(s: Seq<u8>, pos: int) -> u32
    recommends
        0 <= pos,
        pos + 4 <= s.len(),
{
    u32_le(s.subrange(pos, pos + 4)) as u32
}

/// The 64-bit little-endian integer that starts at `pos`.
#[verifier::opaque]
pub open spec fn u64_at(s: Seq<u8>, pos: int) -> u64
    recommends
        0 <= pos,
        pos + 8 <= s.len(),
{
    u64_le(s.subrange(pos, pos + 8)) as u64
}

/// Two bytes always denote a value that fits in 16 bits, and encoding that value gives
/// the two bytes back.
pub proof fn lemma_u16_bytes_of_value(s: Seq<u8>)
    requires
        s.len() == 2,
    ensures
        0 <= u16_le(s) <= u16::MAX,
        u16_le_bytes(u16_le(s) as u16) =~= s,
{
    reveal(u16_le_bytes);
}

/// Decoding the encoding of a 16-bit integer gives the integer back.
pub proof fn lemma_u16_value_of_bytes(v: u16)
    ensures
        u16_le_bytes(v).len() == 2,
        u16_le(u16_le_bytes(v)) == v,
{
    reveal(u16_le_bytes);
}

proof fn lemma_four_digits(a: u8, b: u8, c: u8, d: u8)
    by (bit_vector)
    ensures
        a + 256 * b + 65536 * c + 16777216 * d <= 0xffff_ffff,
        ((a + 256 * b + 65536 * c + 16777216 * d) as u32) % 256 == a,
        ((a + 256 * b + 65536 * c + 16777216 * d) as u32) / 256 % 256 == b,
        ((a + 256 * b + 65536 * c + 16777216 * d) as u32) / 65536 % 256 == c,
        ((a + 256 * b + 65536 * c + 16777216 * d) as u32) / 16777216 == d,
{
}

/// Four bytes always denote a value that fits in 32 bits, and encoding that value gives
/// the four bytes back.
pub proof fn lemma_u32_bytes_of_value(s: Seq<u8>)
    requires
        s.len() == 4,
    ensures
        0 <= u32_le(s) <= u32::MAX,
        u32_le_bytes(u32_le(s) as u32) =~= s,
{
    reveal(u32_le_bytes);
    lemma_four_digits(s[0], s[1], s[2], s[3]);
}

/// Decoding the encoding of a 32-bit integer gives the integer back.
pub proof fn lemma_u32_value_of_bytes(v: u32)
    ensures
        u32_le_bytes(v).len() == 4,
        u32_le(u32_le_bytes(v)) == v,
{
    reveal(u32_le_bytes);
}

/// Eight bytes always denote a value that fits in 64 bits, and encoding that value gives
/// the eight bytes back.
pub proof fn lemma_u64_bytes_of_value(s: Seq<u8>)
    requires
        s.len() == 8,
    ensures
        0 <= u64_le(s) <= u64::MAX,
        u64_le_bytes(u64_le(s) as u64) =~= s,
{
    reveal(u64_le_bytes);
    let lo = s.subrange(0, 4);
    let hi = s.subrange(4, 8);
    lemma_u32_bytes_of_value(lo);
    lemma_u32_bytes_of_value(hi);
    let v = u64_le(s);
    assert(v % 4294967296 == u32_le(lo));
    assert(v / 4294967296 == u32_le(hi));
    assert(lo + hi =~= s);
}

/// Decoding the encoding of a 64-bit integer gives the integer back.
pub proof fn lemma_u64_value_of_bytes(v: u64)
    ensures
        u64_le_bytes(v).len() == 8,
        u64_le(u64_le_bytes(v)) == v,
{
    reveal(u64_le_bytes);
    let lo = (v as int % 4294967296) as u32;
    let hi = (v as int / 4294967296) as u32;
    lemma_u32_value_of_bytes(lo);
    lemma_u32_value_of_bytes(hi);
    let s = u64_le_bytes(v);
    assert(s.subrange(0, 4) =~= u32_le_bytes(lo));
    assert(s.subrange(4, 8) =~= u32_le_bytes(hi));
}

/// A 16-bit integer is read back from the end of a sequence that its encoding was
/// appended to.
pub broadcast proof fn lemma_u16_at_end(p: Seq<u8>, v: u16, k: int)
    requires
        k == p.len(),
    ensures
        #[trigger] u16_at(p + u16_le_bytes(v), k) == v,
{
    reveal(u16_at);
    lemma_u16_encoding_len(v);
    let s = p + u16_le_bytes(v);
    assert(s.subrange(k, k + 2) =~= u16_le_bytes(v));
    lemma_u16_value_of_bytes(v);
}

/// A 32-bit integer is read back from the end of a sequence that its encoding was
/// appended to.
pub broadcast proof fn lemma_u32_at_end(p: Seq<u8>, v: u32, k: int)
    requires
        k == p.len(),
    ensures
        #[trigger] u32_at(p + u32_le_bytes(v), k) == v,
{
    reveal(u32_at);
    lemma_u32_encoding_len(v);
    let s = p + u32_le_bytes(v);
    assert(s.subrange(k, k + 4) =~= u32_le_bytes(v));
    lemma_u32_value_of_bytes(v);
}

/// A 64-bit integer is read back from the end of a sequence that its encoding was
/// appended to.
pub broadcast proof fn lemma_u64_at_end(p: Seq<u8>, v: u64, k: int)
    requires
        k == p.len(),
    ensures
        #[trigger] u64_at(p + u64_le_bytes(v), k) == v,
{
    reveal(u64_at);
    lemma_u64_encoding_len(v);
    let s = p + u64_le_bytes(v);
    lemma_u64_value_of_bytes(v);
    assert(s.subrange(k, k + 8) =~= u64_le_bytes(v));
}

/// A 32-bit integer is read back from the start of its encoding.
pub broadcast proof fn lemma_u32_at_start(v: u32, k: int)
    requires
        k == 0,
    ensures
        #[trigger] u32_at(u32_le_bytes(v), k) == v,
{
    lemma_u32_at_end(Seq::empty(), v, 0);
    assert(Seq::<u8>::empty() + u32_le_bytes(v) =~= u32_le_bytes(v));
}

/// What is read inside a sequence does not change when more bytes follow it.
pub broadcast proof fn lemma_u16_at_prefix(p: Seq<u8>, q: Seq<u8>, k: int)
    requires
        0 <= k,
        k + 2 <= p.len(),
    ensures
        #[trigger] u16_at(p + q, k) == u16_at(p, k),
{
    reveal(u16_at);
    assert((p + q).subrange(k, k + 2) =~= p.subrange(k, k + 2));
}

/// What is read inside a sequence does not change when more bytes follow it.
pub broadcast proof fn lemma_u32_at_prefix(p: Seq<u8>, q: Seq<u8>, k: int)
    requires
        0 <= k,
        k + 4 <= p.len(),
    ensures
        #[trigger] u32_at(p + q, k) == u32_at(p, k),
{
    reveal(u32_at);
    assert((p + q).subrange(k, k + 4) =~= p.subrange(k, k + 4));
}

/// What is read inside a sequence does not change when more bytes follow it.
pub broadcast proof fn lemma_u64_at_prefix(p: Seq<u8>, q: Seq<u8>, k: int)
    requires
        0 <= k,
        k + 8 <= p.len(),
    ensures
        #[trigger] u64_at(p + q, k) == u64_at(p, k),
{
    reveal(u64_at);
    assert((p + q).subrange(k, k + 8) =~= p.subrange(k, k + 8));
}

/// Two sequences that hold the same two bytes at an offset give the same 16-bit
/// integer there.
pub proof fn lemma_u16_at_same_bytes(s: Seq<u8>, t: Seq<u8>, k: int)
    requires
        0 <= k,
        k + 2 <= s.len(),
        k + 2 <= t.len(),
        forall|j: int| k <= j < k + 2 ==> s[j] == t[j],
    ensures
        u16_at(s, k) == u16_at(t, k),
{
    reveal(u16_at);
    assert(s.subrange(k, k + 2) =~= t.subrange(k, k + 2));
}

/// Two sequences that hold the same four bytes at an offset give the same 32-bit
/// integer there.
pub proof fn lemma_u32_at_same_bytes(s: Seq<u8>, t: Seq<u8>, k: int)
    requires
        0 <= k,
        k + 4 <= s.len(),
        k + 4 <= t.len(),
        forall|j: int| k <= j < k + 4 ==> s[j] == t[j],
    ensures
        u32_at(s, k) == u32_at(t, k),
{
    reveal(u32_at);
    assert(s.subrange(k, k + 4) =~= t.subrange(k, k + 4));
}

/// What is read at an offset of the rest of a sequence is what is read that much
/// further on in the sequence.
pub proof fn lemma_at_suffix(s: Seq<u8>, start: int)
    requires
        0 <= start <= s.len(),
    ensures
        forall|k: int|
            0 <= k && start + k + 2 <= s.len() ==> #[trigger] u16_at(
                s.subrange(start, s.len() as int),
                k,
            ) == u16_at(s, start + k),
        forall|k: int|
            0 <= k && start + k + 4 <= s.len() ==> #[trigger] u32_at(
                s.subrange(start, s.len() as int),
                k,
            ) == u32_at(s, start + k),
{
    reveal(u16_at);
    reveal(u32_at);
    let t = s.subrange(start, s.len() as int);
    assert forall|k: int| 0 <= k && start + k + 2 <= s.len() implies #[trigger] u16_at(t, k)
        == u16_at(s, start + k) by {
        assert(t.subrange(k, k + 2) =~= s.subrange(start + k, start + k + 2));
    }
    assert forall|k: int| 0 <= k && start + k + 4 <= s.len() implies #[trigger] u32_at(t, k)
        == u32_at(s, start + k) by {
        assert(t.subrange(k, k + 4) =~= s.subrange(start + k, start + k + 4));
    }
}

/// The encoding of a 16-bit integer has two bytes.
pub broadcast proof fn lemma_u16_encoding_len(v: u16)
    ensures
        #[trigger] u16_le_bytes(v).len() == 2,
{
    reveal(u16_le_bytes);
}

/// The encoding of a 32-bit integer has four bytes.
pub broadcast proof fn lemma_u32_encoding_len(v: u32)
    ensures
        #[trigger] u32_le_bytes(v).len() == 4,
{
    reveal(u32_le_bytes);
}

/// The encoding of a 64-bit integer has eight bytes.
pub broadcast proof fn lemma_u64_encoding_len(v: u64)
    ensures
        #[trigger] u64_le_bytes(v).len() == 8,
{
    reveal(u64_le_bytes);
    reveal(u32_le_bytes);
}

pub broadcast group group_read_back {
    lemma_u32_at_start,
    lemma_u16_encoding_len,
    lemma_u32_encoding_len,
    lemma_u64_encoding_len,
    lemma_u16_at_end,
    lemma_u32_at_end,
    lemma_u64_at_end,
    lemma_u16_at_prefix,
    lemma_u32_at_prefix,
    lemma_u64_at_prefix,
}

/// A 16-bit integer is read back from where its encoding stands.
pub proof fn lemma_u16_at_encoding(p: Seq<u8>, v: u16, q: Seq<u8>)
    ensures
        u16_at(p + u16_le_bytes(v) + q, p.len() as int) == v,
{
    lemma_u16_at_end(p, v, p.len() as int);
    lemma_u16_encoding_len(v);
    lemma_u16_at_prefix(p + u16_le_bytes(v), q, p.len() as int);
}

/// A 64-bit integer is read back from where its encoding stands.
pub proof fn lemma_u64_at_encoding(p: Seq<u8>, v: u64, q: Seq<u8>)
    ensures
        u64_at(p + u64_le_bytes(v) + q, p.len() as int) == v,
{
    lemma_u64_at_end(p, v, p.len() as int);
    lemma_u64_encoding_len(v);
    lemma_u64_at_prefix(p + u64_le_bytes(v), q, p.len() as int);
}

/// Encoding the 16-bit integer found at `pos` gives the two bytes that stand there.
pub proof fn lemma_u16_encoding_at(s: Seq<u8>, pos: int)
    requires
        0 <= pos,
        pos + 2 <= s.len(),
    ensures
        u16_le_bytes(u16_at(s, pos)) == s.subrange(pos, pos + 2),
{
    reveal(u16_at);
    lemma_u16_bytes_of_value(s.subrange(pos, pos + 2));
}

/// Encoding the 32-bit integer found at `pos` gives the four bytes that stand there.
pub proof fn lemma_u32_encoding_at(s: Seq<u8>, pos: int)
    requires
        0 <= pos,
        pos + 4 <= s.len(),
    ensures
        u32_le_bytes(u32_at(s, pos)) == s.subrange(pos, pos + 4),
{
    reveal(u32_at);
    lemma_u32_bytes_of_value(s.subrange(pos, pos + 4));
}

/// Encoding the 64-bit integer found at `pos` gives the eight bytes that stand there.
pub proof fn lemma_u64_encoding_at(s: Seq<u8>, pos: int)
    requires
        0 <= pos,
        pos + 8 <= s.len(),
    ensures
        u64_le_bytes(u64_at(s, pos)) == s.subrange(pos, pos + 8),
{
    reveal(u64_at);
    lemma_u64_bytes_of_value(s.subrange(pos, pos + 8));
}

/// Reads the 16-bit integer at `pos` with `byteorder::LittleEndian::read_u16`, which
/// takes the first two bytes of the slice it is given as a little-endian integer.
#[verifier::external_body]
pub(crate) fn read_u16_le(buf: &[u8], pos: usize) -> (r: u16)
    requires
        pos + 2 <= buf@.len(),
    ensures
        r == u16_at(buf@, pos as int),
{
    LittleEndian::read_u16(&buf[pos..])
}

/// Reads the 32-bit integer at `pos` with `byteorder::LittleEndian::read_u32`, which
/// takes the first four bytes of the slice it is given as a little-endian integer.
#[verifier::external_body]
pub(crate) fn read_u32_le(buf: &[u8], pos: usize) -> (r: u32)
    requires
        pos + 4 <= buf@.len(),
    ensures
        r == u32_at(buf@, pos as int),
{
    LittleEndian::read_u32(&buf[pos..])
}

/// Reads the 64-bit integer at `pos` with `byteorder::LittleEndian::read_u64`, which
/// takes the first eight bytes of the slice it is given as a little-endian integer.
#[verifier::external_body]
pub(crate) fn read_u64_le(buf: &[u8], pos: usize) -> (r: u64)
    requires
        pos + 8 <= buf@.len(),
    ensures
        r == u64_at(buf@, pos as int),
{
    LittleEndian::read_u64(&buf[pos..])
}

/// Appends a 16-bit integer with `byteorder::WriteBytesExt::write_u16`, which hands the
/// two little-endian bytes to the vector's `write_all`; a vector takes every write.
#[verifier::external_body]
pub(crate) fn write_u16_le(out: &mut Vec<u8>, v: u16)
    ensures
        final(out)@ == old(out)@ + u16_le_bytes(v),
{
    let _ = out.write_u16::<LittleEndian>(v);
}

/// Appends a 32-bit integer with `byteorder::WriteBytesExt::write_u32`, which hands the
/// four little-endian bytes to the vector's `write_all`; a vector takes every write.
#[verifier::external_body]
pub(crate) fn write_u32_le(out: &mut Vec<u8>, v: u32)
    ensures
        final(out)@ == old(out)@ + u32_le_bytes(v),
{
    let _ = out.write_u32::<LittleEndian>(v);
}

/// Appends a 64-bit integer with `byteorder::WriteBytesExt::write_u64`, which hands the
/// eight little-endian bytes to the vector's `write_all`; a vector takes every write.
#[verifier::external_body]
pub(crate) fn write_u64_le(out: &mut Vec<u8>, v: u64)
    ensures
        final(out)@ == old(out)@ + u64_le_bytes(v),
{
    let _ = out.write_u64::<LittleEndian>(v);
}

/// A copy of the bytes from `start` up to `end`.
pub fn copy_range(buf: &[u8], start: usize, end: usize) -> (r: Vec<u8>)
    requires
        start <= end <= buf@.len(),
    ensures
        r@ == buf@.subrange(start as int, end as int),
{
    let mut out: Vec<u8> = Vec::new();
    out.extend_from_slice(slice_subrange(buf, start, end));
    out
}

} // verus!
