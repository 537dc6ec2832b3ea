//! Decryption of the WinZip AES formats AE-1 and AE-2.
//!
//! The payload of an encrypted entry holds a salt, two bytes that check the password,
//! the encrypted data and ten bytes that authenticate it. Keys come from the password
//! by PBKDF2 with HMAC-SHA1 in 1000 rounds; the data is encrypted with AES in counter
//! mode, with a little-endian counter that starts at one.

use vstd::prelude::*;
use vstd::slice::slice_subrange;
use ::aes::cipher::{Block, BlockCipherEncrypt, KeyInit};
use hmac::Mac;
use crate::codec::{u64_le_bytes, write_u64_le};
use crate::result::{other_error, truncated, Fault, ZipResult};
use crate::types::AesMode;

verus! {

/// The length of the value that checks the password.
pub const PWD_VERIFY_LENGTH: usize = 2;

/// The length of the authentication code.
pub const AUTH_CODE_LENGTH: usize = 10;

/// The number of rounds of the key derivation.
pub const ITERATION_COUNT: u32 = 1000;

/// What `pbkdf2::pbkdf2_hmac` with SHA-1 derives: `len` bytes from password and
/// salt in the given number of rounds.
pub uninterp spec fn pbkdf2_sha1(password: Seq<u8>, salt: Seq<u8>, rounds: u32, len: nat) -> Seq<
    u8,
>;

/// The 20 bytes that `hmac::Hmac` over SHA-1 gives for a message under a key.
pub uninterp spec fn hmac_sha1(key: Seq<u8>, message: Seq<u8>) -> Seq<u8>;

/// The block that `aes::Aes128` encrypts a block of 16 bytes to under a key of 16
/// bytes.
pub uninterp spec fn aes128_block(key: Seq<u8>, block: Seq<u8>) -> Seq<u8>;

/// The block that `aes::Aes192` encrypts a block of 16 bytes to under a key of 24
/// bytes.
pub uninterp spec fn aes192_block(key: Seq<u8>, block: Seq<u8>) -> Seq<u8>;

/// The block that `aes::Aes256` encrypts a block of 16 bytes to under a key of 32
/// bytes.
pub uninterp spec fn aes256_block(key: Seq<u8>, block: Seq<u8>) -> Seq<u8>;

/// Derives `len` bytes with `pbkdf2::pbkdf2_hmac` over SHA-1, which fills the buffer
/// it is given.
#[verifier::external_body]
fn derive(password: &[u8], salt: &[u8], rounds: u32, len: usize) -> (r: Vec<u8>)
    ensures
        r@ == pbkdf2_sha1(password@, salt@, rounds, len as nat),
        r@.len() == len,
{
    let mut out = vec![0u8; len];
    pbkdf2::pbkdf2_hmac::<sha1::Sha1>(password, salt, rounds, &mut out);
    out
}

/// Computes the code of a message with `hmac::Hmac` over SHA-1, which takes keys of any
/// length and gives 20 bytes.
#[verifier::external_body]
fn authenticate(key: &[u8], message: &[u8]) -> (r: Vec<u8>)
    ensures
        r@ == hmac_sha1(key@, message@),
        r@.len() == 20,
{
    let mut mac = <hmac::Hmac<sha1::Sha1> as KeyInit>::new_from_slice(key).expect(
        "HMAC takes keys of any length",
    );
    mac.update(message);
    mac.finalize().into_bytes().to_vec()
}

/// Encrypts one block with `aes::Aes128`, which takes keys of 16 bytes.
#[verifier::external_body]
fn encrypt_block_128(key: &[u8], block: &[u8]) -> (r: Vec<u8>)
    requires
        key@.len() == 16,
        block@.len() == 16,
    ensures
        r@ == aes128_block(key@, block@),
        r@.len() == 16,
{
    let cipher = ::aes::Aes128::new_from_slice(key).expect("the key has 16 bytes");
    let mut b = Block::<::aes::Aes128>::default();
    b.copy_from_slice(block);
    cipher.encrypt_block(&mut b);
    b.to_vec()
}

/// Encrypts one block with `aes::Aes192`, which takes keys of 24 bytes.
#[verifier::external_body]
fn encrypt_block_192(key: &[u8], block: &[u8]) -> (r: Vec<u8>)
    requires
        key@.len() == 24,
        block@.len() == 16,
    ensures
        r@ == aes192_block(key@, block@),
        r@.len() == 16,
{
    let cipher = ::aes::Aes192::new_from_slice(key).expect("the key has 24 bytes");
    let mut b = Block::<::aes::Aes192>::default();
    b.copy_from_slice(block);
    cipher.encrypt_block(&mut b);
    b.to_vec()
}

/// Encrypts one block with `aes::Aes256`, which takes keys of 32 bytes.
#[verifier::external_body]
fn encrypt_block_256(key: &[u8], block: &[u8]) -> (r: Vec<u8>)
    requires
        key@.len() == 32,
        block@.len() == 16,
    ensures
        r@ == aes256_block(key@, block@),
        r@.len() == 16,
{
    let cipher = ::aes::Aes256::new_from_slice(key).expect("the key has 32 bytes");
    let mut b = Block::<::aes::Aes256>::default();
    b.copy_from_slice(block);
    cipher.encrypt_block(&mut b);
    b.to_vec()
}

/// The block that AES of the given strength encrypts a block to.
pub open spec fn aes_block(mode: AesMode, key: Seq<u8>, block: Seq<u8>) -> Seq<u8> {
    match mode {
        AesMode::Aes128 => aes128_block(key, block),
        AesMode::Aes192 => aes192_block(key, block),
        AesMode::Aes256 => aes256_block(key, block),
    }
}

/// The counter of the given number as a block: 16 bytes, little-endian.
pub open spec fn counter_block(number: u64) -> Seq<u8> {
    u64_le_bytes(number) + u64_le_bytes(0)
}

/// The byte of the key stream at an offset of the data: the blocks of the stream are
/// the encrypted counters 1, 2, 3 and so on.
pub open spec fn key_stream_byte(mode: AesMode, key: Seq<u8>, offset: int) -> u8 {
    aes_block(mode, key, counter_block((offset / 16 + 1) as u64))[offset % 16]
}

/// Data combined with the key stream. Decryption and encryption are the same.
pub open spec fn ctr_applied(mode: AesMode, key: Seq<u8>, data: Seq<u8>) -> Seq<u8> {
    Seq::new(data.len(), |j: int| data[j] ^ key_stream_byte(mode, key, j))
}

/// Encrypts one block with AES of the given strength.
fn encrypt_block(mode: AesMode, key: &[u8], block: &[u8]) -> (r: Vec<u8>)
    requires
        key@.len() == mode.spec_key_length(),
        block@.len() == 16,
    ensures
        r@ == aes_block(mode, key@, block@),
        r@.len() == 16,
{
    match mode {
        AesMode::Aes128 => encrypt_block_128(key, block),
        AesMode::Aes192 => encrypt_block_192(key, block),
        AesMode::Aes256 => encrypt_block_256(key, block),
    }
}

/// Combines data with the key stream of AES in counter mode.
pub fn apply_ctr(mode: AesMode, key: &[u8], data: &[u8]) -> (r: Vec<u8>)
    requires
        key@.len() == mode.spec_key_length(),
    ensures
        r@ == ctr_applied(mode, key@, data@),
{
    broadcast use crate::codec::group_read_back;

    let mut out: Vec<u8> = Vec::new();
    let total: usize = data.len();
    let mut at: usize = 0;
    let mut number: u64 = 1;
    while at < total
        invariant
            total == data@.len(),
            key@.len() == mode.spec_key_length(),
            at <= total,
            at % 16 == 0 || at == total,
            at < total ==> number == at / 16 + 1,
            out@.len() == at,
            forall|j: int| 0 <= j < at ==> out@[j] == data@[j] ^ key_stream_byte(mode, key@, j),
        decreases total - at,
    {
        let mut counter: Vec<u8> = Vec::new();
        write_u64_le(&mut counter, number);
        write_u64_le(&mut counter, 0);
        proof {
            crate::codec::lemma_u64_encoding_len(number);
            crate::codec::lemma_u64_encoding_len(0);
            assert(counter@ =~= counter_block(number));
        }
        let stream = encrypt_block(mode, key, counter.as_slice());
        let end: usize = if total - at < 16 {
            total
        } else {
            at + 16
        };
        let start: usize = at;
        while at < end
            invariant
                total == data@.len(),
                start <= at <= end <= total,
                end - start <= 16,
                start % 16 == 0,
                stream@.len() == 16,
                stream@ == aes_block(mode, key@, counter_block((start / 16 + 1) as u64)),
                out@.len() == at,
                forall|j: int|
                    0 <= j < at ==> out@[j] == data@[j] ^ key_stream_byte(mode, key@, j),
            decreases end - at,
        {
            assert(at as int / 16 == start as int / 16 && at as int % 16 == at - start)
                by (nonlinear_arith)
                requires
                    start % 16 == 0,
                    start <= at,
                    at - start < 16,
            ;
            out.push(data[at] ^ stream[at - start]);
            at = at + 1;
        }
        if number < u64::MAX {
            number = number + 1;
        }
    }
    assert(out@ =~= ctr_applied(mode, key@, data@));
    out
}

/// The number of bytes of a payload that are no data: the salt, the value that checks
/// the password and the authentication code.
pub open spec fn aes_overhead(mode: AesMode) -> int {
    mode.spec_key_length() / 2 + 2 + 10
}

/// The salt of a payload.
pub open spec fn aes_salt(mode: AesMode, payload: Seq<u8>) -> Seq<u8> {
    payload.subrange(0, mode.spec_key_length() as int / 2)
}

/// The bytes that password and salt give: the key of the cipher, the key of the
/// authentication code and the value that checks the password.
pub open spec fn aes_derived(mode: AesMode, password: Seq<u8>, payload: Seq<u8>) -> Seq<u8> {
    pbkdf2_sha1(
        password,
        aes_salt(mode, payload),
        ITERATION_COUNT,
        (2 * mode.spec_key_length() + 2) as nat,
    )
}

/// True when a password passes the check on the start of a payload: the derived value
/// is the one that follows the salt.
pub open spec fn aes_password_accepted(mode: AesMode, password: Seq<u8>, payload: Seq<u8>)
    -> bool {
    let k = mode.spec_key_length() as int;
    payload.len() >= k / 2 + 2 && aes_derived(mode, password, payload).subrange(2 * k, 2 * k + 2)
        == payload.subrange(k / 2, k / 2 + 2)
}

/// What reading an entry of `compressed_size` bytes gives, for keys that came from the
/// password and a payload of which the source may hold less than the entry says.
///
/// Where the source holds all the data, the authentication code that follows it is
/// compared with the one of the data as it stands; where the source ends before, what
/// there is gets decrypted, and nothing is compared.
pub open spec fn aes_content(mode: AesMode, derived: Seq<u8>, compressed_size: u64, payload: Seq<u8>)
    -> Result<Seq<u8>, Fault> {
    let k = mode.spec_key_length() as int;
    let data_len = compressed_size - aes_overhead(mode);
    let body = payload.skip(k / 2 + 2);
    let key = derived.subrange(0, k);
    let mac_key = derived.subrange(k, 2 * k);
    if data_len <= 0 {
        Ok(Seq::empty())
    } else if body.len() < data_len {
        Ok(ctr_applied(mode, key, body))
    } else if body.len() < data_len + 10 {
        Err(Fault::Io)
    } else if hmac_sha1(mac_key, body.subrange(0, data_len)).subrange(0, 10) != body.subrange(
        data_len,
        data_len + 10,
    ) {
        Err(Fault::Io)
    } else {
        Ok(ctr_applied(mode, key, body.subrange(0, data_len)))
    }
}

/// A reader of an AES encrypted payload whose password has not been checked yet.
pub struct AesReader<'a> {
    reader: &'a [u8],
    aes_mode: AesMode,
    compressed_size: u64,
}

/// A reader of an AES encrypted payload whose password passed the check.
pub struct AesReaderValid<'a> {
    reader: &'a [u8],
    aes_mode: AesMode,
    compressed_size: u64,
    derived: Vec<u8>,
}

impl<'a> AesReader<'a> {
    /// The payload.
    pub closed spec fn payload(&self) -> Seq<u8> {
        self.reader@
    }

    /// The strength of the cipher.
    pub closed spec fn mode(&self) -> AesMode {
        self.aes_mode
    }

    /// The size that the entry gives for its payload.
    pub closed spec fn size(&self) -> u64 {
        self.compressed_size
    }

    /// Takes the payload of an entry that is `compressed_size` bytes long with salt,
    /// check value and authentication code.
    pub fn new(reader: &'a [u8], aes_mode: AesMode, compressed_size: u64) -> (r: AesReader<'a>)
        ensures
            r.payload() == reader@,
            r.mode() == aes_mode,
            r.size() == compressed_size,
    {
        AesReader { reader, aes_mode, compressed_size }
    }

    /// Read the AES header bytes and validate the password.
    ///
    /// Even if the validation succeeds, there is still a 1 in 65536 chance that an
    /// incorrect password was provided. It isn't possible to check the authentication
    /// code in this step: that is done once the data has been read.
    ///
    /// A payload that ends before the check value gives an I/O error.
    pub fn validate(self, password: &[u8]) -> (r: ZipResult<Option<AesReaderValid<'a>>>)
        ensures
            r is Err <==> self.payload().len() < self.mode().spec_key_length() / 2 + 2,
            r is Err ==> r->Err_0@ == Fault::Io,
            r is Ok ==> (r->Ok_0 is Some <==> aes_password_accepted(
                self.mode(),
                password@,
                self.payload(),
            )),
            r is Ok && r->Ok_0 is Some ==> {
                let valid = r->Ok_0->0;
                &&& valid.payload() == self.payload()
                &&& valid.mode() == self.mode()
                &&& valid.size() == self.size()
                &&& valid.keys() == aes_derived(self.mode(), password@, self.payload())
            },
    {
        let salt_length: usize = self.aes_mode.salt_length();
        let key_length: usize = self.aes_mode.key_length();
        if self.reader.len() < salt_length + PWD_VERIFY_LENGTH {
            return Err(truncated());
        }
        let salt = slice_subrange(self.reader, 0, salt_length);
        // next are 2 bytes used for password verification
        let first: u8 = self.reader[salt_length];
        let second: u8 = self.reader[salt_length + 1];
        // derive a key from the password and salt
        // the length depends on the aes key length
        let derived_key_len: usize = 2 * key_length + PWD_VERIFY_LENGTH;
        let derived = derive(password, salt, ITERATION_COUNT, derived_key_len);
        // the last 2 bytes should equal the password verification value
        let ghost k = key_length as int;
        let ghost want = self.reader@.subrange(k / 2, k / 2 + 2);
        let ghost have = derived@.subrange(2 * k, 2 * k + 2);
        assert(want.len() == 2 && have.len() == 2);
        assert(want[0] == first && want[1] == second);
        assert(have[0] == derived@[2 * k] && have[1] == derived@[2 * k + 1]);
        if derived[derived_key_len - 2] != first || derived[derived_key_len - 1] != second {
            assert(want != have);
            return Ok(None);
        }
        assert(want =~= have);
        Ok(
            Some(
                AesReaderValid {
                    reader: self.reader,
                    aes_mode: self.aes_mode,
                    compressed_size: self.compressed_size,
                    derived,
                },
            ),
        )
    }
}

impl<'a> AesReaderValid<'a> {
    #[verifier::type_invariant]
    spec fn has_header(self) -> bool {
        &&& self.reader@.len() >= self.aes_mode.spec_key_length() / 2 + 2
        &&& self.derived@.len() == 2 * self.aes_mode.spec_key_length() + 2
    }

    /// The payload, header included.
    pub closed spec fn payload(&self) -> Seq<u8> {
        self.reader@
    }

    /// The strength of the cipher.
    pub closed spec fn mode(&self) -> AesMode {
        self.aes_mode
    }

    /// The size that the entry gives for its payload.
    pub closed spec fn size(&self) -> u64 {
        self.compressed_size
    }

    /// The bytes that password and salt gave.
    pub closed spec fn keys(&self) -> Seq<u8> {
        self.derived@
    }

    /// Reads the entry to its end: checks the authentication code of the data and
    /// decrypts it.
    pub fn read_to_end(&self) -> (r: ZipResult<Vec<u8>>)
        ensures
            match r {
                Ok(bytes) => aes_content(self.mode(), self.keys(), self.size(), self.payload())
                    == Ok::<Seq<u8>, Fault>(bytes@),
                Err(e) => aes_content(self.mode(), self.keys(), self.size(), self.payload())
                    == Err::<Seq<u8>, Fault>(e@),
            },
    {
        proof {
            use_type_invariant(self);
        }
        let key_length: usize = self.aes_mode.key_length();
        let header: usize = self.aes_mode.salt_length() + PWD_VERIFY_LENGTH;
        let overhead: u64 = (header + AUTH_CODE_LENGTH) as u64;
        let body = slice_subrange(self.reader, header, self.reader.len());
        assert(body@ =~= self.reader@.skip(header as int));
        let key = slice_subrange(self.derived.as_slice(), 0, key_length);
        let mac_key = slice_subrange(self.derived.as_slice(), key_length, 2 * key_length);
        if self.compressed_size <= overhead {
            return Ok(Vec::new());
        }
        let wanted: u64 = self.compressed_size - overhead;
        if (body.len() as u64) < wanted {
            return Ok(apply_ctr(self.aes_mode, key, body));
        }
        let data_len: usize = wanted as usize;
        if body.len() - data_len < AUTH_CODE_LENGTH {
            return Err(truncated());
        }
        let data = slice_subrange(body, 0, data_len);
        // Zip uses HMAC-Sha1-80, which only uses the first half of the hash
        let code = authenticate(mac_key, data);
        let ghost computed = code@.subrange(0, 10);
        let ghost stored = body@.subrange(data_len as int, data_len + 10);
        let total: usize = body.len();
        let mut same: bool = true;
        let mut i: usize = 0;
        while i < AUTH_CODE_LENGTH
            invariant
                i <= 10,
                code@.len() == 20,
                total == body@.len(),
                data_len + 10 <= total,
                computed == code@.subrange(0, 10),
                stored == body@.subrange(data_len as int, data_len + 10),
                same <==> forall|j: int| 0 <= j < i ==> computed[j] == stored[j],
            decreases 10 - i,
        {
            if code[i] != body[data_len + i] {
                assert(computed[i as int] != stored[i as int]);
                same = false;
            }
            i = i + 1;
        }
        if !same {
            return Err(
                other_error(
                    "Invalid authentication code, this could be due to an invalid password or errors in the data",
                ),
            );
        }
        assert(computed =~= stored);
        Ok(apply_ctr(self.aes_mode, key, data))
    }

    /// Consumes this decoder, returning what is left of the payload behind salt and
    /// check value.
    pub fn into_inner(self) -> (r: &'a [u8])
        ensures
            r@ == self.payload().skip(self.mode().spec_key_length() as int / 2 + 2),
    {
        proof {
            use_type_invariant(&self);
        }
        let header: usize = self.aes_mode.salt_length() + PWD_VERIFY_LENGTH;
        let rest = slice_subrange(self.reader, header, self.reader.len());
        assert(rest@ =~= self.reader@.skip(header as int));
        rest
    }
}

} // verus!
