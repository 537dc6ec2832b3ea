use aes::cipher::{Block, BlockCipherEncrypt, KeyInit};
use hmac::Mac;
use zip::aes::{apply_ctr, AesReader};
use zip::headers::{CentralDirectoryHeader, LocalFileHeader};
use zip::read::ZipArchive;
use zip::records::CentralDirectoryEnd;
use zip::result::{InvalidPassword, ZipError};
use zip::types::{AesMode, AesVendorVersion};

/// The key stream of AES in counter mode, with a little-endian counter from one,
/// combined with `data`.
fn ctr(key: &[u8], data: &[u8]) -> Vec<u8> {
    let mut out = Vec::new();
    for (i, chunk) in data.chunks(16).enumerate() {
        let counter = (i as u128 + 1).to_le_bytes();
        let stream: Vec<u8> = match key.len() {
            16 => {
                let mut b = Block::<aes::Aes128>::default();
                b.copy_from_slice(&counter);
                aes::Aes128::new_from_slice(key).unwrap().encrypt_block(&mut b);
                b.to_vec()
            }
            24 => {
                let mut b = Block::<aes::Aes192>::default();
                b.copy_from_slice(&counter);
                aes::Aes192::new_from_slice(key).unwrap().encrypt_block(&mut b);
                b.to_vec()
            }
            _ => {
                let mut b = Block::<aes::Aes256>::default();
                b.copy_from_slice(&counter);
                aes::Aes256::new_from_slice(key).unwrap().encrypt_block(&mut b);
                b.to_vec()
            }
        };
        for (d, s) in chunk.iter().zip(stream.iter()) {
            out.push(d ^ s);
        }
    }
    out
}

/// The payload of an AES encrypted entry: salt, check value, data, code.
fn aes_payload(key_len: usize, password: &[u8], plain: &[u8]) -> Vec<u8> {
    let salt: Vec<u8> = (1..=key_len as u8 / 2).collect();
    let mut derived = vec![0u8; 2 * key_len + 2];
    pbkdf2::pbkdf2_hmac::<sha1::Sha1>(password, &salt, 1000, &mut derived);
    let data = ctr(&derived[..key_len], plain);
    let mut mac =
        <hmac::Hmac<sha1::Sha1> as KeyInit>::new_from_slice(&derived[key_len..2 * key_len])
            .unwrap();
    mac.update(&data);
    let code = mac.finalize().into_bytes();
    let mut payload = salt;
    payload.extend_from_slice(&derived[2 * key_len..]);
    payload.extend_from_slice(&data);
    payload.extend_from_slice(&code[..10]);
    payload
}

/// An archive with one stored entry `vault`, AES encrypted.
fn aes_zip(key_len: usize, version: u16, password: &[u8], plain: &[u8]) -> Vec<u8> {
    let payload = aes_payload(key_len, password, plain);
    let crc = if version == 2 { 0 } else { zip::crc32::checksum(plain) };
    let strength = (key_len / 8 - 1) as u8;
    let extra = vec![0x01, 0x99, 7, 0, version as u8, 0, b'A', b'E', strength, 0, 0];
    let local = LocalFileHeader {
        version_needed: 51,
        flags: 1,
        compression_method: 99,
        last_mod_time: 0,
        last_mod_date: 33,
        crc32: crc,
        compressed_size: payload.len() as u32,
        uncompressed_size: plain.len() as u32,
        file_name: b"vault".to_vec(),
        extra_field: extra.clone(),
    };
    let mut out = Vec::new();
    local.write(&mut out).unwrap();
    out.extend_from_slice(&payload);
    let central_start = out.len() as u32;
    let central = CentralDirectoryHeader {
        version_made_by: 0x0333,
        version_needed: 51,
        flags: 1,
        compression_method: 99,
        last_mod_time: 0,
        last_mod_date: 33,
        crc32: crc,
        compressed_size: payload.len() as u32,
        uncompressed_size: plain.len() as u32,
        disk_number_start: 0,
        internal_attributes: 0,
        external_attributes: 0,
        relative_offset: 0,
        file_name: b"vault".to_vec(),
        extra_field: extra,
        file_comment: Vec::new(),
    };
    central.write(&mut out).unwrap();
    let end = CentralDirectoryEnd {
        disk_number: 0,
        disk_with_central_directory: 0,
        number_of_files_on_this_disk: 1,
        number_of_files: 1,
        central_directory_size: out.len() as u32 - central_start,
        central_directory_offset: central_start,
        zip_file_comment: Vec::new(),
    };
    end.write(&mut out).unwrap();
    out
}

const SECRET: &[u8] = b"a text of more than two blocks of sixteen bytes each";

#[test]
fn aes_entries_are_decrypted() {
    for key_len in [16usize, 24, 32] {
        for version in [1u16, 2] {
            let reader = ZipArchive::new(aes_zip(key_len, version, b"password", SECRET)).unwrap();
            let data = reader.entry(0).unwrap();
            let mode = match key_len {
                16 => AesMode::Aes128,
                24 => AesMode::Aes192,
                _ => AesMode::Aes256,
            };
            let vendor = if version == 1 { AesVendorVersion::Ae1 } else { AesVendorVersion::Ae2 };
            assert_eq!(data.aes_mode, Some((mode, vendor)));
            assert!(data.encrypted);
            let mut file = reader.by_index_decrypt(0, b"password").unwrap().unwrap();
            assert_eq!(file.read_to_end().unwrap(), SECRET.to_vec());
        }
    }
}

#[test]
fn aes_wrong_password_is_no_error() {
    let reader = ZipArchive::new(aes_zip(16, 2, b"password", SECRET)).unwrap();
    assert!(matches!(reader.by_index_decrypt(0, b"Password"), Ok(Err(InvalidPassword))));
    assert!(matches!(reader.by_index_decrypt(0, b""), Ok(Err(InvalidPassword))));
    assert!(matches!(
        reader.by_index(0),
        Err(ZipError::UnsupportedArchive("Password required to decrypt file"))
    ));
}

#[test]
fn aes_data_is_authenticated() {
    let mut archive = aes_zip(32, 2, b"password", SECRET);
    // One bit of the encrypted data is flipped.
    let at = 30 + 5 + 11 + 16 + 2 + 7;
    archive[at] ^= 0x80;
    let reader = ZipArchive::new(archive).unwrap();
    let mut file = reader.by_index_decrypt(0, b"password").unwrap().unwrap();
    assert!(matches!(file.read_to_end(), Err(ZipError::Io(_))));
}

#[test]
fn ae1_entry_is_checked_against_its_checksum() {
    let mut archive = aes_zip(16, 1, b"password", SECRET);
    // The checksum in the central directory is changed.
    let central = 30 + 5 + 11 + aes_payload(16, b"password", SECRET).len();
    archive[central + 16] ^= 1;
    let reader = ZipArchive::new(archive).unwrap();
    let mut file = reader.by_index_decrypt(0, b"password").unwrap().unwrap();
    assert!(matches!(file.read_to_end(), Err(ZipError::Crc32Mismatch { .. })));
    // With AE-2 the checksum is not looked at.
    let mut archive = aes_zip(16, 2, b"password", SECRET);
    archive[central + 16] ^= 1;
    let reader = ZipArchive::new(archive).unwrap();
    let mut file = reader.by_index_decrypt(0, b"password").unwrap().unwrap();
    assert_eq!(file.read_to_end().unwrap(), SECRET.to_vec());
}

#[test]
fn counter_mode_key_stream() {
    let key: Vec<u8> = (0..16u8).collect();
    let zeros = vec![0u8; 40];
    let stream = apply_ctr(AesMode::Aes128, &key, &zeros);
    assert_eq!(stream, ctr(&key, &zeros));
    assert_ne!(stream, zeros);
    assert_ne!(stream[..16], stream[16..32]);
    // The first block of the stream is the encrypted counter one: AES-128 of
    // 01 00 .. 00 under the key 00 01 .. 0f.
    let mut block = Block::<aes::Aes128>::default();
    block[0] = 1;
    aes::Aes128::new_from_slice(&key).unwrap().encrypt_block(&mut block);
    assert_eq!(stream[..16], block[..]);
    // Applying the stream twice gives the data back.
    let data = b"some data to encrypt".to_vec();
    let key: Vec<u8> = (0..32u8).collect();
    let once = apply_ctr(AesMode::Aes256, &key, &data);
    assert_ne!(once, data);
    assert_eq!(apply_ctr(AesMode::Aes256, &key, &once), data);
    let key: Vec<u8> = (0..24u8).collect();
    assert_eq!(apply_ctr(AesMode::Aes192, &key, &data), ctr(&key, &data));
    assert_eq!(apply_ctr(AesMode::Aes192, &key, &[]), Vec::<u8>::new());
}

#[test]
fn aes_reader_checks_the_password_value() {
    let payload = aes_payload(16, b"pw", b"data");
    assert_eq!(payload.len(), 8 + 2 + 4 + 10);
    let valid = AesReader::new(&payload, AesMode::Aes128, payload.len() as u64)
        .validate(b"pw")
        .unwrap()
        .unwrap();
    assert_eq!(valid.read_to_end().unwrap(), b"data".to_vec());
    assert_eq!(valid.into_inner(), &payload[10..]);
    assert!(AesReader::new(&payload, AesMode::Aes128, payload.len() as u64)
        .validate(b"pW")
        .unwrap()
        .is_none());
    assert!(matches!(
        AesReader::new(&payload[..9], AesMode::Aes128, 9).validate(b"pw"),
        Err(ZipError::Io(_))
    ));
    // An entry that is said to hold no data gives none.
    let valid = AesReader::new(&payload, AesMode::Aes128, 20).validate(b"pw").unwrap().unwrap();
    assert_eq!(valid.read_to_end().unwrap(), Vec::<u8>::new());
    // A source that ends inside the authentication code.
    let short = &payload[..payload.len() - 1];
    let valid = AesReader::new(short, AesMode::Aes128, payload.len() as u64)
        .validate(b"pw")
        .unwrap()
        .unwrap();
    assert!(matches!(valid.read_to_end(), Err(ZipError::Io(_))));
}
