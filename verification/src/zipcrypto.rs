//! The traditional PKWARE stream cipher, decryption only.
//!
//! The cipher is weak and is kept for compatibility. The check that a password passes
//! looks at one byte, so one wrong password in 256 passes it too.

use vstd::prelude::*;
use crate::crc32::{crc32_byte, update_byte};
use crate::result::{truncated, ZipResult};

verus! {

/// The three keys of the cipher.
#[derive(Clone, Copy, Debug, PartialEq, Eq, Structural)]
pub struct ZipCryptoKeys {
    pub key_0: u32,
    pub key_1: u32,
    pub key_2: u32,
}

/// The keys before the password is taken.
pub open spec fn initial_keys() -> ZipCryptoKeys {
    ZipCryptoKeys { key_0: 0x12345678, key_1: 0x23456789, key_2: 0x34567890 }
}

/// The second key after a step: the low byte of the first key is added, the sum is
/// multiplied by 134775813, and one is added, all modulo 2^32.
pub open spec fn next_key_1(key_1: u32, key_0: u32) -> u32 {
    (((key_1 as int + (key_0 & 0xff) as int) * 0x08088405 + 1) % 0x1_0000_0000) as u32
}

/// The keys after they have taken one byte of plain text.
pub open spec fn keys_update(keys: ZipCryptoKeys, input: u8) -> ZipCryptoKeys {
    let key_0 = crc32_byte(keys.key_0, input);
    let key_1 = next_key_1(keys.key_1, key_0);
    let key_2 = crc32_byte(keys.key_2, (key_1 >> 24) as u8);
    ZipCryptoKeys { key_0, key_1, key_2 }
}

/// The byte of the key stream that the keys give.
pub open spec fn stream_byte(keys: ZipCryptoKeys) -> u8 {
    let temp: u32 = (keys.key_2 & 0xffff) | 3;
    (((temp * (temp ^ 1)) as u32 >> 8) & 0xff) as u8
}

/// The keys after they have taken a sequence of plain bytes.
pub open spec fn keys_after(keys: ZipCryptoKeys, plain: Seq<u8>) -> ZipCryptoKeys
    decreases plain.len(),
{
    if plain.len() == 0 {
        keys
    } else {
        keys_update(keys_after(keys, plain.drop_last()), plain.last())
    }
}

/// The plain text of a cipher text: each byte is combined with the byte of the key
/// stream, and the keys then take the plain byte.
pub open spec fn decrypted(keys: ZipCryptoKeys, cipher: Seq<u8>) -> Seq<u8>
    decreases cipher.len(),
{
    if cipher.len() == 0 {
        Seq::empty()
    } else {
        let before = decrypted(keys, cipher.drop_last());
        before.push(cipher.last() ^ stream_byte(keys_after(keys, before)))
    }
}

/// The keys that a password gives.
pub open spec fn password_keys(password: Seq<u8>) -> ZipCryptoKeys {
    keys_after(initial_keys(), password)
}

/// What the last byte of the decrypted header is compared with.
#[derive(Clone, Copy, Debug, PartialEq, Eq, Structural)]
pub enum ZipCryptoValidator {
    /// The highest byte of the entry's CRC-32.
    PkzipCrc32(u32),
    /// The lowest byte of the entry's packed MS-DOS time, for an entry whose checksum
    /// follows the data.
    InfoZipMsdosTime(u16),
}

/// The byte that a validator asks for.
pub open spec fn validator_byte(validator: ZipCryptoValidator) -> u8 {
    match validator {
        ZipCryptoValidator::PkzipCrc32(crc32) => (crc32 >> 24) as u8,
        ZipCryptoValidator::InfoZipMsdosTime(time) => (time & 0xff) as u8,
    }
}

/// True when a password passes the check on the 12 bytes that start an encrypted
/// payload.
pub open spec fn password_accepted(
    password: Seq<u8>,
    payload: Seq<u8>,
    validator: ZipCryptoValidator,
) -> bool {
    payload.len() >= 12 && decrypted(password_keys(password), payload.subrange(0, 12))[11]
        == validator_byte(validator)
}

/// The plain text of an encrypted payload whose password was accepted: what the 12
/// bytes of the header are followed by.
pub open spec fn decrypted_payload(password: Seq<u8>, payload: Seq<u8>) -> Seq<u8> {
    decrypted(password_keys(password), payload).subrange(12, payload.len() as int)
}

impl ZipCryptoKeys {
    /// The keys before the password is taken.
    pub fn new() -> (keys: ZipCryptoKeys)
        ensures
            keys == initial_keys(),
    {
        ZipCryptoKeys { key_0: 0x12345678, key_1: 0x23456789, key_2: 0x34567890 }
    }

    /// Takes one byte of plain text.
    pub fn update(&mut self, input: u8)
        ensures
            *final(self) == keys_update(*old(self), input),
    {
        let key_0: u32 = update_byte(self.key_0, input);
        let low: u32 = key_0 & 0xff;
        assert(low <= 0xff) by (bit_vector)
            requires
                low == key_0 & 0xff,
        ;
        let wide: u64 = (self.key_1 as u64 + low as u64) * 0x08088405u64 + 1u64;
        let key_1: u32 = (wide % 0x1_0000_0000u64) as u32;
        let high: u32 = key_1 >> 24;
        assert(high <= 0xff) by (bit_vector)
            requires
                high == key_1 >> 24,
        ;
        let key_2: u32 = update_byte(self.key_2, high as u8);
        self.key_0 = key_0;
        self.key_1 = key_1;
        self.key_2 = key_2;
    }

    /// The byte of the key stream that the keys give.
    pub fn stream_byte(&self) -> (r: u8)
        ensures
            r == stream_byte(*self),
    {
        let key_2: u32 = self.key_2;
        let temp: u32 = (key_2 & 0xffff) | 3;
        let other: u32 = temp ^ 1;
        assert(temp <= 0xffff && other <= 0xffff) by (bit_vector)
            requires
                temp == (key_2 & 0xffff) | 3,
                other == temp ^ 1,
        ;
        assert(temp * other <= 0xffff * 0xffff) by (nonlinear_arith)
            requires
                temp <= 0xffff,
                other <= 0xffff,
        ;
        let product: u32 = temp * other;
        let byte: u32 = (product >> 8) & 0xff;
        assert(byte <= 0xff) by (bit_vector)
            requires
                byte == (product >> 8) & 0xff,
        ;
        byte as u8
    }

    /// Decrypts one byte and takes its plain text.
    pub fn decrypt_byte(&mut self, cipher_byte: u8) -> (plain_byte: u8)
        ensures
            plain_byte == cipher_byte ^ stream_byte(*old(self)),
            *final(self) == keys_update(*old(self), plain_byte),
    {
        let plain_byte: u8 = cipher_byte ^ self.stream_byte();
        self.update(plain_byte);
        plain_byte
    }
}

/// The keys that a password gives.
pub fn derive_keys(password: &[u8]) -> (keys: ZipCryptoKeys)
    ensures
        keys == password_keys(password@),
{
    let mut keys = ZipCryptoKeys::new();
    let mut i: usize = 0;
    while i < password.len()
        invariant
            i <= password@.len(),
            keys == keys_after(initial_keys(), password@.subrange(0, i as int)),
        decreases password@.len() - i,
    {
        proof {
            let next = password@.subrange(0, i + 1);
            assert(next.drop_last() =~= password@.subrange(0, i as int));
        }
        keys.update(password[i]);
        i = i + 1;
    }
    proof {
        assert(password@.subrange(0, i as int) =~= password@);
    }
    keys
}

/// The plain text of a cipher text under the given keys.
pub fn decrypt(first: ZipCryptoKeys, cipher: &[u8]) -> (r: Vec<u8>)
    ensures
        r@ == decrypted(first, cipher@),
        r@.len() == cipher@.len(),
{
    let mut keys = first;
    let mut out: Vec<u8> = Vec::new();
    let mut i: usize = 0;
    while i < cipher.len()
        invariant
            i <= cipher@.len(),
            out@.len() == i,
            out@ == decrypted(first, cipher@.subrange(0, i as int)),
            keys == keys_after(first, out@),
        decreases cipher@.len() - i,
    {
        let ghost before = out@;
        let plain = keys.decrypt_byte(cipher[i]);
        out.push(plain);
        proof {
            let next = cipher@.subrange(0, i + 1);
            assert(next.drop_last() =~= cipher@.subrange(0, i as int));
            assert(out@.drop_last() =~= before);
        }
        i = i + 1;
    }
    proof {
        assert(cipher@.subrange(0, i as int) =~= cipher@);
    }
    out
}

/// A reader of an encrypted payload whose password has not been checked yet.
pub struct ZipCryptoReader<'a> {
    file: &'a [u8],
    keys: ZipCryptoKeys,
}

/// A reader of an encrypted payload whose password passed the check.
pub struct ZipCryptoReaderValid<'a> {
    file: &'a [u8],
    keys: ZipCryptoKeys,
}

impl<'a> ZipCryptoReader<'a> {
    /// The encrypted payload.
    pub closed spec fn payload(&self) -> Seq<u8> {
        self.file@
    }

    /// The keys that the password gave.
    pub closed spec fn keys(&self) -> ZipCryptoKeys {
        self.keys
    }

    /// Takes the password for an encrypted payload.
    ///
    /// The password is a byte sequence: this library does not pick an encoding for it.
    pub fn new(file: &'a [u8], password: &[u8]) -> (r: ZipCryptoReader<'a>)
        ensures
            r.payload() == file@,
            r.keys() == password_keys(password@),
    {
        ZipCryptoReader { file, keys: derive_keys(password) }
    }

    /// Read the ZipCrypto header bytes and validate the password.
    ///
    /// A payload of less than 12 bytes gives an I/O error. Otherwise the result says
    /// whether the last byte of the decrypted header is the one that the validator
    /// asks for.
    pub fn validate(self, validator: ZipCryptoValidator) -> (r: ZipResult<
        Option<ZipCryptoReaderValid<'a>>,
    >)
        ensures
            self.payload().len() < 12 <==> r is Err,
            r is Err ==> r->Err_0@ == crate::result::Fault::Io,
            r is Ok ==> (r->Ok_0 is Some <==> decrypted(
                self.keys(),
                self.payload().subrange(0, 12),
            )[11] == validator_byte(validator)),
            r is Ok && r->Ok_0 is Some ==> r->Ok_0->0.payload() == self.payload()
                && r->Ok_0->0.first_keys() == self.keys(),
    {
        if self.file.len() < 12 {
            return Err(truncated());
        }
        let header = vstd::slice::slice_subrange(self.file, 0, 12);
        let plain = decrypt(self.keys, header);
        let expected: u8 = match validator {
            ZipCryptoValidator::PkzipCrc32(crc32) => {
                let high: u32 = crc32 >> 24;
                assert(high <= 0xff) by (bit_vector)
                    requires
                        high == crc32 >> 24,
                ;
                high as u8
            },
            ZipCryptoValidator::InfoZipMsdosTime(time) => {
                let low: u16 = time & 0xff;
                assert(low <= 0xff) by (bit_vector)
                    requires
                        low == time & 0xff,
                ;
                low as u8
            },
        };
        if plain[11] != expected {
            return Ok(None);
        }
        Ok(Some(ZipCryptoReaderValid { file: self.file, keys: self.keys }))
    }
}

impl<'a> ZipCryptoReaderValid<'a> {
    #[verifier::type_invariant]
    spec fn has_header(self) -> bool {
        self.file@.len() >= 12
    }

    /// The encrypted payload, header included.
    pub closed spec fn payload(&self) -> Seq<u8> {
        self.file@
    }

    /// The keys that the password gave.
    pub closed spec fn first_keys(&self) -> ZipCryptoKeys {
        self.keys
    }

    /// The plain text that follows the 12 bytes of the header.
    pub fn read_to_end(&self) -> (r: Vec<u8>)
        ensures
            self.payload().len() >= 12,
            r@ == decrypted(self.first_keys(), self.payload()).subrange(
                12,
                self.payload().len() as int,
            ),
    {
        proof {
            use_type_invariant(self);
        }
        let all = decrypt(self.keys, self.file);
        crate::codec::copy_range(all.as_slice(), 12, all.len())
    }

    /// Consumes this decoder, returning what is left of the encrypted payload behind
    /// the header.
    pub fn into_inner(self) -> (r: &'a [u8])
        ensures
            self.payload().len() >= 12,
            r@ == self.payload().subrange(12, self.payload().len() as int),
    {
        proof {
            use_type_invariant(&self);
        }
        vstd::slice::slice_subrange(self.file, 12, self.file.len())
    }
}

} // verus!
