//! The CRC-32 checksum of the format: polynomial 0xEDB88320, all bits set at the start
//! and inverted at the end.

use vstd::prelude::*;
use crate::result::{ZipError, ZipResult};

verus! {

/// The reflected polynomial of the checksum.
pub const CRC32_POLYNOMIAL: u32 = 0xEDB8_8320;

/// One division step: the register moves right by one bit, and the polynomial is
/// added where a one fell out.
pub open spec fn crc32_shift(c: u32) -> u32 {
    if c & 1 == 1 {
        (c >> 1) ^ CRC32_POLYNOMIAL
    } else {
        c >> 1
    }
}

/// The register after it has taken one byte: eight division steps on the register
/// with the byte added to its low end.
pub open spec fn crc32_byte(crc: u32, b: u8) -> u32 {
    crc32_shift(
        crc32_shift(
            crc32_shift(
                crc32_shift(crc32_shift(crc32_shift(crc32_shift(crc32_shift(crc ^ (b as u32)))))),
            ),
        ),
    )
}

/// The register after it has taken a sequence of bytes, from all bits set.
pub open spec fn crc32_register(data: Seq<u8>) -> u32
    decreases data.len(),
{
    if data.len() == 0 {
        0xFFFF_FFFF
    } else {
        crc32_byte(crc32_register(data.drop_last()), data.last())
    }
}

/// The CRC-32 checksum of a sequence of bytes.
pub open spec fn crc32(data: Seq<u8>) -> u32 {
    crc32_register(data) ^ 0xFFFF_FFFF
}

proof fn lemma_shift_keeps_apart(x: u32, y: u32)
    by (bit_vector)
    requires
        x != y,
    ensures
        (if x & 1 == 1 {
            (x >> 1) ^ 0xEDB8_8320u32
        } else {
            x >> 1
        }) != (if y & 1 == 1 {
            (y >> 1) ^ 0xEDB8_8320u32
        } else {
            y >> 1
        }),
{
}

proof fn lemma_added_byte_keeps_apart(x: u32, y: u32, a: u8, b: u8)
    by (bit_vector)
    requires
        x != y || a != b,
        x == y || a == b,
    ensures
        x ^ (a as u32) != y ^ (b as u32),
{
}

proof fn lemma_inversion_keeps_apart(x: u32, y: u32)
    by (bit_vector)
    requires
        x != y,
    ensures
        x ^ 0xFFFF_FFFFu32 != y ^ 0xFFFF_FFFFu32,
{
}

/// Two registers that differ still differ after a division step.
pub proof fn lemma_crc32_shift_is_one_to_one(x: u32, y: u32)
    requires
        x != y,
    ensures
        crc32_shift(x) != crc32_shift(y),
{
    lemma_shift_keeps_apart(x, y);
}

/// Taking a byte is one to one: two registers that differ still differ after they
/// have taken the same byte, and one register differs after it has taken one or the
/// other of two bytes.
pub proof fn lemma_crc32_byte_is_one_to_one(x: u32, y: u32, a: u8, b: u8)
    requires
        x != y || a != b,
        x == y || a == b,
    ensures
        crc32_byte(x, a) != crc32_byte(y, b),
{
    lemma_added_byte_keeps_apart(x, y, a, b);
    let x0 = x ^ (a as u32);
    let y0 = y ^ (b as u32);
    lemma_crc32_shift_is_one_to_one(x0, y0);
    let x1 = crc32_shift(x0);
    let y1 = crc32_shift(y0);
    lemma_crc32_shift_is_one_to_one(x1, y1);
    let x2 = crc32_shift(x1);
    let y2 = crc32_shift(y1);
    lemma_crc32_shift_is_one_to_one(x2, y2);
    let x3 = crc32_shift(x2);
    let y3 = crc32_shift(y2);
    lemma_crc32_shift_is_one_to_one(x3, y3);
    let x4 = crc32_shift(x3);
    let y4 = crc32_shift(y3);
    lemma_crc32_shift_is_one_to_one(x4, y4);
    let x5 = crc32_shift(x4);
    let y5 = crc32_shift(y4);
    lemma_crc32_shift_is_one_to_one(x5, y5);
    let x6 = crc32_shift(x5);
    let y6 = crc32_shift(y5);
    lemma_crc32_shift_is_one_to_one(x6, y6);
    let x7 = crc32_shift(x6);
    let y7 = crc32_shift(y6);
    lemma_crc32_shift_is_one_to_one(x7, y7);
}

/// True when two sequences have the same length and differ at the offset `at` and
/// nowhere else.
pub open spec fn differ_in_one_byte(s: Seq<u8>, t: Seq<u8>, at: int) -> bool {
    &&& s.len() == t.len()
    &&& 0 <= at < s.len()
    &&& s[at] != t[at]
    &&& forall|j: int| 0 <= j < s.len() && j != at ==> s[j] == t[j]
}

/// One changed byte changes the checksum: two sequences that differ in one byte
/// have different checksums.
pub proof fn lemma_one_changed_byte_changes_the_checksum(s: Seq<u8>, t: Seq<u8>, at: int)
    requires
        differ_in_one_byte(s, t, at),
    ensures
        crc32_register(s) != crc32_register(t),
        crc32(s) != crc32(t),
    decreases s.len(),
{
    let s0 = s.drop_last();
    let t0 = t.drop_last();
    if at == s.len() - 1 {
        assert(s0 =~= t0);
        lemma_crc32_byte_is_one_to_one(
            crc32_register(s0),
            crc32_register(t0),
            s.last(),
            t.last(),
        );
    } else {
        assert(differ_in_one_byte(s0, t0, at));
        lemma_one_changed_byte_changes_the_checksum(s0, t0, at);
        lemma_crc32_byte_is_one_to_one(
            crc32_register(s0),
            crc32_register(t0),
            s.last(),
            t.last(),
        );
    }
    lemma_inversion_keeps_apart(crc32_register(s), crc32_register(t));
}

/// One division step.
fn shift(c: u32) -> (r: u32)
    ensures
        r == crc32_shift(c),
{
    if c & 1 == 1 {
        (c >> 1) ^ CRC32_POLYNOMIAL
    } else {
        c >> 1
    }
}

/// Feeds one byte to a register.
pub fn update_byte(crc: u32, b: u8) -> (r: u32)
    ensures
        r == crc32_byte(crc, b),
{
    let mut c: u32 = crc ^ (b as u32);
    c = shift(c);
    c = shift(c);
    c = shift(c);
    c = shift(c);
    c = shift(c);
    c = shift(c);
    c = shift(c);
    c = shift(c);
    c
}

/// A running checksum over the bytes that were fed to it.
pub struct Hasher {
    register: u32,
    seen: Ghost<Seq<u8>>,
}

impl Hasher {
    #[verifier::type_invariant]
    spec fn register_follows(self) -> bool {
        self.register == crc32_register(self.seen@)
    }

    /// The bytes that were fed so far.
    pub closed spec fn view(&self) -> Seq<u8> {
        self.seen@
    }

    /// A checksum over no bytes.
    pub fn new() -> (h: Hasher)
        ensures
            h@ == Seq::<u8>::empty(),
    {
        Hasher { register: 0xFFFF_FFFF, seen: Ghost(Seq::empty()) }
    }

    /// Feeds bytes to the checksum.
    pub fn update(&mut self, bytes: &[u8])
        ensures
            final(self)@ == old(self)@ + bytes@,
    {
        proof {
            use_type_invariant(&*self);
        }
        let mut register: u32 = self.register;
        let ghost before = self.seen@;
        let mut i: usize = 0;
        while i < bytes.len()
            invariant
                i <= bytes@.len(),
                register == crc32_register(before + bytes@.subrange(0, i as int)),
            decreases bytes@.len() - i,
        {
            proof {
                let next = before + bytes@.subrange(0, i + 1);
                assert(next.drop_last() =~= before + bytes@.subrange(0, i as int));
                assert(next.last() == bytes@[i as int]);
            }
            register = update_byte(register, bytes[i]);
            i = i + 1;
        }
        proof {
            assert(bytes@.subrange(0, i as int) =~= bytes@);
        }
        *self = Hasher { register, seen: Ghost(before + bytes@) };
    }

    /// The checksum of the bytes that were fed so far.
    pub fn finalize(&self) -> (r: u32)
        ensures
            r == crc32(self@),
    {
        proof {
            use_type_invariant(self);
        }
        self.register ^ 0xFFFF_FFFF
    }
}

/// The CRC-32 checksum of a sequence of bytes.
pub fn checksum(bytes: &[u8]) -> (r: u32)
    ensures
        r == crc32(bytes@),
{
    let mut hasher = Hasher::new();
    hasher.update(bytes);
    assert(Seq::<u8>::empty() + bytes@ =~= bytes@);
    hasher.finalize()
}

/// What the end of a checked stream gives: nothing to complain of where the entry is
/// AE-2 encrypted, which carries no checksum, or where the checksum of the bytes that
/// were delivered is the stored one.
pub open spec fn checked_end(delivered: Seq<u8>, stored: u32, ae2_encrypted: bool) -> Option<
    (u32, u32),
> {
    if ae2_encrypted || crc32(delivered) == stored {
        None
    } else {
        Some((stored, crc32(delivered)))
    }
}

/// Reader that validates the CRC32 of what an inner source delivers when that source
/// reaches its end.
///
/// The one who drives the inner source reports each read with `observe`.
pub struct Crc32Reader<R> {
    inner: R,
    hasher: Hasher,
    check: u32,
    /// Signals if `inner` stores aes encrypted data.
    /// AE-2 encrypted data doesn't use crc and sets the value to 0.
    ae2_encrypted: bool,
}

impl<R> Crc32Reader<R> {
    /// The bytes that the inner source has delivered so far.
    pub closed spec fn delivered(&self) -> Seq<u8> {
        self.hasher@
    }

    /// The checksum that the delivered bytes have to give.
    pub closed spec fn stored(&self) -> u32 {
        self.check
    }

    /// True when the check is switched off.
    pub closed spec fn unchecked(&self) -> bool {
        self.ae2_encrypted
    }

    /// The source that is read from.
    pub closed spec fn source(&self) -> R {
        self.inner
    }

    /// Get a new Crc32Reader which checks the inner reader against checksum.
    /// The check is disabled if `ae2_encrypted == true`.
    pub fn new(inner: R, checksum: u32, ae2_encrypted: bool) -> (r: Crc32Reader<R>)
        ensures
            r.delivered() == Seq::<u8>::empty(),
            r.stored() == checksum,
            r.unchecked() == ae2_encrypted,
            r.source() == inner,
    {
        Crc32Reader { inner, hasher: Hasher::new(), check: checksum, ae2_encrypted }
    }

    /// Takes note of one read of the inner source, which put `count` bytes at the
    /// start of `buf`. A read of no bytes into a buffer that has room is the end of
    /// the source: the checksum is then compared.
    pub fn observe(&mut self, buf: &[u8], count: usize) -> (r: ZipResult<()>)
        requires
            count <= buf@.len(),
        ensures
            final(self).stored() == old(self).stored(),
            final(self).unchecked() == old(self).unchecked(),
            final(self).source() == old(self).source(),
            final(self).delivered() == old(self).delivered() + buf@.subrange(0, count as int),
            count == 0 && buf@.len() > 0 ==> (match checked_end(
                old(self).delivered(),
                old(self).stored(),
                old(self).unchecked(),
            ) {
                None => r is Ok,
                Some((expected, actual)) => r is Err && r->Err_0 == (ZipError::Crc32Mismatch {
                    expected,
                    actual,
                }),
            }),
            count > 0 || buf@.len() == 0 ==> r is Ok,
    {
        if count == 0 && buf.len() > 0 {
            let actual = self.hasher.finalize();
            assert(self.delivered() + buf@.subrange(0, 0) =~= self.delivered());
            if !self.ae2_encrypted && actual != self.check {
                return Err(ZipError::Crc32Mismatch { expected: self.check, actual });
            }
            return Ok(());
        }
        self.hasher.update(vstd::slice::slice_subrange(buf, 0, count));
        Ok(())
    }

    /// The source that is read from.
    pub fn get_ref(&self) -> (r: &R)
        ensures
            *r == self.source(),
    {
        &self.inner
    }

    /// The checksum that the delivered bytes have to give.
    pub fn expected(&self) -> (r: u32)
        ensures
            r == self.stored(),
    {
        self.check
    }

    /// True when the check is switched off.
    pub fn is_unchecked(&self) -> (r: bool)
        ensures
            r == self.unchecked(),
    {
        self.ae2_encrypted
    }

    /// Gives the inner source back.
    pub fn into_inner(self) -> (r: R)
        ensures
            r == self.source(),
    {
        self.inner
    }
}

/// Compares the checksum of the bytes that an entry delivered with the stored one.
pub fn check_end(delivered: &[u8], stored: u32, ae2_encrypted: bool) -> (r: ZipResult<()>)
    ensures
        match checked_end(delivered@, stored, ae2_encrypted) {
            None => r is Ok,
            Some((expected, actual)) => r is Err && r->Err_0 == (ZipError::Crc32Mismatch {
                expected,
                actual,
            }),
        },
{
    if ae2_encrypted {
        return Ok(());
    }
    let actual = checksum(delivered);
    if actual != stored {
        Err(ZipError::Crc32Mismatch { expected: stored, actual })
    } else {
        Ok(())
    }
}

} // verus!
