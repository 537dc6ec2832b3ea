use std::io::Write;
use zip::compression::CompressionMethod;
use zip::extra::{walk_extra_field, ExtraFields};
use zip::headers::{CentralDirectoryHeader, LocalFileHeader};
use zip::read::{
    central_header_to_zip_file, central_header_to_zip_file_inner, find_content,
    make_crypto_reader, make_reader, read_zipfile_from_stream, unsupported_zip_error,
    CryptoReader, ZipArchive, ZipEntry,
};
use zip::records::CentralDirectoryEnd;
use zip::result::{InvalidPassword, ZipError};
use zip::types::{AesMode, AesVendorVersion, DateTime, System};
use zip::write::{FileOptions, ZipWriter};
use zip::zipcrypto::ZipCryptoKeys;

const MIMETYPE: &[u8] = b"application/vnd.oasis.opendocument.text";

fn stored() -> FileOptions {
    FileOptions::default().compression_method(CompressionMethod::Stored)
}

/// An archive with the one stored entry `mimetype`.
fn mimetype_zip() -> Vec<u8> {
    let mut zip = ZipWriter::new();
    zip.start_file("mimetype", stored()).unwrap();
    zip.write_all(MIMETYPE).unwrap();
    zip.finish().unwrap()
}

/// An archive with directories and files in them.
fn files_and_dirs_zip() -> Vec<u8> {
    let mut zip = ZipWriter::new();
    zip.add_directory("dir1/", FileOptions::default()).unwrap();
    zip.start_file("dir1/file1", stored()).unwrap();
    zip.write_all(b"one").unwrap();
    zip.add_directory("dir1/dir2", FileOptions::default()).unwrap();
    zip.start_file("dir1/dir2/file2", FileOptions::default()).unwrap();
    zip.write_all(b"two").unwrap();
    zip.start_file("file3", stored()).unwrap();
    zip.finish().unwrap()
}

/// An archive whose one entry is a large file, so that it ends with the ZIP64 records.
fn zip64_zip() -> Vec<u8> {
    let mut zip = ZipWriter::new();
    zip.start_file("demo", stored().large_file(true)).unwrap();
    zip.write_all(b"zip64 demo").unwrap();
    zip.finish().unwrap()
}

fn end_record_offset(archive: &[u8]) -> usize {
    CentralDirectoryEnd::find_and_parse(archive).unwrap().1 as usize
}

#[test]
fn invalid_offset() {
    // The central directory is said to start behind the end of central directory record.
    let mut v = mimetype_zip();
    let end = end_record_offset(&v);
    v[end + 16..end + 20].copy_from_slice(&0x7fff_0000u32.to_le_bytes());
    let reader = ZipArchive::new(v);
    assert!(reader.is_err());
}

#[test]
fn invalid_offset2() {
    // The central directory is said to start where no header stands.
    let mut v = mimetype_zip();
    let end = end_record_offset(&v);
    let size = u32::from_le_bytes([v[end + 12], v[end + 13], v[end + 14], v[end + 15]]);
    v[end + 12..end + 16].copy_from_slice(&(size + 3).to_le_bytes());
    v[end + 16..end + 20].copy_from_slice(&3u32.to_le_bytes());
    let reader = ZipArchive::new(v);
    assert!(matches!(reader, Err(ZipError::InvalidArchive(_))));
}

#[test]
fn zip64_with_leading_junk() {
    let archive = zip64_zip();
    let reader = ZipArchive::new(archive.clone()).unwrap();
    assert_eq!(reader.len(), 1);
    assert_eq!(reader.offset(), 0);

    let mut v = vec![0xA5u8; 1234];
    v.extend_from_slice(&archive);
    let reader = ZipArchive::new(v).unwrap();
    assert_eq!(reader.len(), 1);
    assert_eq!(reader.offset(), 1234);
    let mut file = reader.by_index(0).unwrap();
    assert_eq!(file.read_to_end().unwrap(), b"zip64 demo".to_vec());
}

#[test]
fn zip_contents() {
    let v = mimetype_zip();
    let reader = ZipArchive::new(v).unwrap();
    assert_eq!(reader.comment(), b"");
    assert_eq!(reader.by_index(0).unwrap().central_header_start(), 77);
}

#[test]
fn zip_read_streaming() {
    let v = mimetype_zip();
    let mut at = 0;
    let mut seen = 0;
    loop {
        match read_zipfile_from_stream(&v[at..]).unwrap() {
            None => break,
            Some((mut file, consumed)) => {
                assert_eq!(file.name(), "mimetype");
                assert_eq!(file.read_to_end().unwrap(), MIMETYPE.to_vec());
                assert_eq!(file.data_start(), 38);
                assert_eq!(consumed, 77);
                at += consumed;
                seen += 1;
            }
        }
    }
    assert_eq!(seen, 1);
    assert_eq!(at, 77);
}

#[test]
fn zip_clone() {
    let v = mimetype_zip();
    let reader1 = ZipArchive::new(v).unwrap();
    let reader2 = reader1.clone();

    let mut file1 = reader1.by_index(0).unwrap();
    let mut file2 = reader2.by_index(0).unwrap();

    let t = file1.last_modified();
    assert_eq!(
        (t.year(), t.month(), t.day(), t.hour(), t.minute(), t.second()),
        (1980, 1, 1, 0, 0, 0)
    );

    let all1 = file1.read_to_end().unwrap();
    let all2 = file2.read_to_end().unwrap();
    let (buf1, buf3) = (&all1[0..5], &all1[5..10]);
    let (buf2, buf4) = (&all2[0..5], &all2[5..10]);

    assert_eq!(buf1, buf2);
    assert_eq!(buf3, buf4);
    assert_ne!(buf1, buf3);
}

#[test]
fn file_and_dir_predicates() {
    let zip = ZipArchive::new(files_and_dirs_zip()).unwrap();
    assert_eq!(zip.len(), 5);

    for i in 0..zip.len() {
        let zip_file = zip.by_index(i).unwrap();
        let full_name = std::path::PathBuf::from(zip_file.enclosed_name().unwrap());
        let file_name = full_name.file_name().unwrap().to_str().unwrap();
        assert!(
            (file_name.starts_with("dir") && zip_file.is_dir())
                || (file_name.starts_with("file") && zip_file.is_file())
        );
    }
}

/// test case to ensure we don't preemptively over allocate based on the
/// declared number of files in the CDE of an invalid zip when the number of
/// files declared is more than the alleged offset in the CDE
#[test]
fn invalid_cde_number_of_files_allocation_smaller_offset() {
    let mut v = mimetype_zip();
    let end = end_record_offset(&v);
    assert!(end < 0xFFFE);
    v[end + 8..end + 10].copy_from_slice(&0xFFFEu16.to_le_bytes());
    v[end + 10..end + 12].copy_from_slice(&0xFFFEu16.to_le_bytes());
    assert_eq!(ZipArchive::file_capacity(0xFFFE, end as u64), 0);
    let reader = ZipArchive::new(v);
    assert!(reader.is_err());
}

/// test case to ensure we don't preemptively over allocate based on the
/// declared number of files in the CDE of an invalid zip when the number of
/// files declared is less than the alleged offset in the CDE
#[test]
fn invalid_cde_number_of_files_allocation_greater_offset() {
    let mut v = mimetype_zip();
    let end = end_record_offset(&v);
    assert!(end > 5);
    v[end + 8..end + 10].copy_from_slice(&5u16.to_le_bytes());
    v[end + 10..end + 12].copy_from_slice(&5u16.to_le_bytes());
    assert_eq!(ZipArchive::file_capacity(5, end as u64), 5);
    let reader = ZipArchive::new(v);
    assert!(reader.is_err());
}

#[test]
fn short_archive_is_refused() {
    for len in [0usize, 1, 21] {
        match ZipArchive::new(vec![0x50; len]) {
            Err(ZipError::InvalidArchive(m)) => assert_eq!(m, "Invalid zip header"),
            _ => panic!("an archive of {} bytes was accepted", len),
        }
    }
    match ZipArchive::new(vec![0; 22]) {
        Err(ZipError::InvalidArchive(m)) => assert_eq!(m, "Could not find central directory end"),
        _ => panic!("an archive without end record was accepted"),
    }
}

#[test]
fn empty_archive_opens() {
    let archive = ZipWriter::new().finish().unwrap();
    assert_eq!(archive.len(), 22);
    let reader = ZipArchive::new(archive.clone()).unwrap();
    assert_eq!(reader.len(), 0);
    assert!(reader.is_empty());
    assert!(reader.file_names().is_empty());
    assert!(matches!(reader.by_index(0), Err(ZipError::FileNotFound)));
    assert!(matches!(reader.by_name("x"), Err(ZipError::FileNotFound)));
    assert_eq!(reader.into_inner(), archive);
}

#[test]
fn prepended_junk_shifts_the_offsets() {
    let archive = files_and_dirs_zip();
    let plain = ZipArchive::new(archive.clone()).unwrap();
    let mut v: Vec<u8> = (0..100u8).collect();
    v.extend_from_slice(&archive);
    let shifted = ZipArchive::new(v).unwrap();
    assert_eq!(plain.offset(), 0);
    assert_eq!(shifted.offset(), 100);
    assert_eq!(shifted.len(), plain.len());
    for i in 0..plain.len() {
        let mut a = plain.by_index(i).unwrap();
        let mut b = shifted.by_index(i).unwrap();
        assert_eq!(a.name(), b.name());
        assert_eq!(a.header_start() + 100, b.header_start());
        assert_eq!(a.data_start() + 100, b.data_start());
        assert_eq!(a.read_to_end().unwrap(), b.read_to_end().unwrap());
    }
}

#[test]
fn multi_disk_archive_is_refused() {
    let mut v = mimetype_zip();
    let end = end_record_offset(&v);
    v[end + 4] = 1;
    match ZipArchive::new(v) {
        Err(ZipError::UnsupportedArchive(m)) => {
            assert_eq!(m, "Support for multi-disk files is not implemented")
        }
        _ => panic!("a multi-disk archive was accepted"),
    }
}

#[test]
fn size_and_offset_of_the_directory_must_fit_before_the_end_record() {
    let mut v = mimetype_zip();
    let end = end_record_offset(&v);
    v[end + 12..end + 16].copy_from_slice(&(end as u32 + 1).to_le_bytes());
    v[end + 16..end + 20].copy_from_slice(&0u32.to_le_bytes());
    match ZipArchive::new(v) {
        Err(ZipError::InvalidArchive(m)) => {
            assert_eq!(m, "Invalid central directory size or offset")
        }
        _ => panic!("accepted"),
    }
}

#[test]
fn directory_counts_of_a_plain_archive() {
    let v = mimetype_zip();
    let (footer, pos) = CentralDirectoryEnd::find_and_parse(&v).unwrap();
    let counts = ZipArchive::get_directory_counts(&v, &footer, pos).unwrap();
    assert_eq!(counts, (0, 77, 1));
    let mut junk = vec![1u8; 10];
    junk.extend_from_slice(&v);
    let (footer, pos) = CentralDirectoryEnd::find_and_parse(&junk).unwrap();
    let counts = ZipArchive::get_directory_counts(&junk, &footer, pos).unwrap();
    assert_eq!(counts, (10, 87, 1));
}

#[test]
fn directory_counts_of_a_zip64_archive() {
    let v = zip64_zip();
    let (footer, pos) = CentralDirectoryEnd::find_and_parse(&v).unwrap();
    assert_eq!(&v[pos as usize - 20..pos as usize - 16], &[0x50, 0x4b, 0x06, 0x07]);
    let (offset, start, count) = ZipArchive::get_directory_counts(&v, &footer, pos).unwrap();
    assert_eq!(offset, 0);
    assert_eq!(count, 1);
    assert_eq!(&v[start as usize..start as usize + 4], &[0x50, 0x4b, 0x01, 0x02]);
    // A locator in an archive that is too short for the record it points to.
    let mut short = v[pos as usize - 20..].to_vec();
    let at = short.len() - 22;
    short[at + 8..at + 12].copy_from_slice(&[0xFF; 4]);
    let (footer, pos) = CentralDirectoryEnd::find_and_parse(&short).unwrap();
    assert!(matches!(
        ZipArchive::get_directory_counts(&short, &footer, pos),
        Err(ZipError::InvalidArchive("File cannot contain ZIP64 central directory end"))
    ));
}

#[test]
fn names_are_listed_once_and_the_last_entry_of_a_name_is_found() {
    let mut zip = ZipWriter::new();
    zip.start_file("twice", stored()).unwrap();
    zip.write_all(b"first").unwrap();
    zip.start_file("once", stored()).unwrap();
    zip.write_all(b"only").unwrap();
    zip.start_file("twice", stored()).unwrap();
    zip.write_all(b"second").unwrap();
    let reader = ZipArchive::new(zip.finish().unwrap()).unwrap();
    assert_eq!(reader.len(), 3);
    let mut names = reader.file_names();
    names.sort();
    assert_eq!(names, vec!["once".to_string(), "twice".to_string()]);
    assert_eq!(reader.index_for_name("twice"), Some(2));
    assert_eq!(reader.index_for_name("once"), Some(1));
    assert_eq!(reader.index_for_name("never"), None);
    assert_eq!(reader.by_name("twice").unwrap().read_to_end().unwrap(), b"second".to_vec());
    assert_eq!(reader.by_index(0).unwrap().read_to_end().unwrap(), b"first".to_vec());
    assert!(matches!(reader.by_name("never"), Err(ZipError::FileNotFound)));
    assert!(matches!(reader.by_name_decrypt("never", b"pw"), Err(ZipError::FileNotFound)));
    assert!(matches!(reader.by_index(3), Err(ZipError::FileNotFound)));
    assert!(matches!(reader.by_index_raw(3), Err(ZipError::FileNotFound)));
    assert!(matches!(reader.by_index_decrypt(3, b"pw"), Err(ZipError::FileNotFound)));
    assert!(reader.entry(2).is_some());
    assert!(reader.entry(3).is_none());
}

#[test]
fn malicious_name_is_mangled_and_not_enclosed() {
    let mut zip = ZipWriter::new();
    zip.start_file("/path/../../../../etc/passwd\0/etc/shadow", stored()).unwrap();
    zip.start_file("foo/../bar", stored()).unwrap();
    zip.start_file("foo/../../bar", stored()).unwrap();
    zip.start_file("/abs", stored()).unwrap();
    zip.start_file("a\\..\\b", stored()).unwrap();
    let reader = ZipArchive::new(zip.finish().unwrap()).unwrap();
    let file = reader.by_index(0).unwrap();
    assert_eq!(file.mangled_name(), "path/etc/passwd");
    assert_eq!(file.sanitized_name(), "path/etc/passwd");
    assert_eq!(file.enclosed_name(), None);
    let file = reader.by_index(1).unwrap();
    assert_eq!(file.mangled_name(), "foo/bar");
    assert_eq!(file.enclosed_name(), Some("foo/../bar"));
    let file = reader.by_index(2).unwrap();
    assert_eq!(file.mangled_name(), "foo/bar");
    assert_eq!(file.enclosed_name(), None);
    let file = reader.by_index(3).unwrap();
    assert_eq!(file.mangled_name(), "abs");
    assert_eq!(file.enclosed_name(), None);
    let file = reader.by_index(4).unwrap();
    assert_eq!(file.mangled_name(), "a/b");
    assert_eq!(file.enclosed_name(), Some("a\\..\\b"));
}

#[test]
fn corrupted_payload_fails_the_checksum() {
    let mut v = mimetype_zip();
    v[38 + 4] ^= 0x01;
    let reader = ZipArchive::new(v).unwrap();
    let mut file = reader.by_index(0).unwrap();
    let expected = file.crc32();
    match file.read_to_end() {
        Err(ZipError::Crc32Mismatch { expected: e, actual }) => {
            assert_eq!(e, expected);
            assert_ne!(actual, expected);
        }
        _ => panic!("a corrupted payload was read"),
    }
    // Read raw, the payload is handed out as it stands.
    let mut raw = reader.by_index_raw(0).unwrap();
    let bytes = raw.read_to_end().unwrap();
    assert_eq!(bytes.len(), MIMETYPE.len());
    assert_ne!(bytes, MIMETYPE.to_vec());
}

#[test]
fn entry_length_and_checksum_agree_with_the_description() {
    let reader = ZipArchive::new(files_and_dirs_zip()).unwrap();
    for i in 0..reader.len() {
        let mut file = reader.by_index(i).unwrap();
        let bytes = file.read_to_end().unwrap();
        assert_eq!(bytes.len() as u64, file.size());
        assert_eq!(zip::crc32::checksum(&bytes), file.crc32());
    }
}

/// Encrypts with the traditional cipher: a header of twelve bytes, whose last one is
/// `check`, and the plain text.
fn zipcrypto_encrypt(password: &[u8], check: u8, plain: &[u8]) -> Vec<u8> {
    let mut keys = zip::zipcrypto::derive_keys(password);
    let mut header = vec![7u8, 13, 21, 34, 55, 89, 144, 233, 1, 2, 3, check];
    header.extend_from_slice(plain);
    let mut out = Vec::new();
    for b in header {
        out.push(b ^ keys.stream_byte());
        keys.update(b);
    }
    out
}

/// An archive with one stored entry `secret`, encrypted with the traditional cipher.
fn encrypted_zip(password: &[u8], plain: &[u8], with_descriptor_flag: bool) -> Vec<u8> {
    let crc = zip::crc32::checksum(plain);
    let time: u16 = 0x54CF;
    let check = if with_descriptor_flag { (time & 0xff) as u8 } else { (crc >> 24) as u8 };
    let payload = zipcrypto_encrypt(password, check, plain);
    let flags: u16 = if with_descriptor_flag { 1 | 8 } else { 1 };
    let local = LocalFileHeader {
        version_needed: 20,
        flags,
        compression_method: 0,
        last_mod_time: time,
        last_mod_date: 0x4D71,
        crc32: crc,
        compressed_size: payload.len() as u32,
        uncompressed_size: plain.len() as u32,
        file_name: b"secret".to_vec(),
        extra_field: Vec::new(),
    };
    let mut out = Vec::new();
    local.write(&mut out).unwrap();
    out.extend_from_slice(&payload);
    let central_start = out.len() as u32;
    let central = CentralDirectoryHeader {
        version_made_by: 0x0314,
        version_needed: 20,
        flags,
        compression_method: 0,
        last_mod_time: time,
        last_mod_date: 0x4D71,
        crc32: crc,
        compressed_size: payload.len() as u32,
        uncompressed_size: plain.len() as u32,
        disk_number_start: 0,
        internal_attributes: 0,
        external_attributes: 0o100600 << 16,
        relative_offset: 0,
        file_name: b"secret".to_vec(),
        extra_field: Vec::new(),
        file_comment: Vec::new(),
    };
    central.write(&mut out).unwrap();
    let end = CentralDirectoryEnd {
        disk_number: 0,
        disk_with_central_directory: 0,
        number_of_files_on_this_disk: 1,
        number_of_files: 1,
        central_directory_size: out.len() as u32 - central_start,
        central_directory_offset: central_start,
        zip_file_comment: Vec::new(),
    };
    end.write(&mut out).unwrap();
    out
}

#[test]
fn right_password_decrypts() {
    let reader = ZipArchive::new(encrypted_zip(b"test", b"top secret text", false)).unwrap();
    let mut file = reader.by_index_decrypt(0, b"test").unwrap().unwrap();
    assert_eq!(file.read_to_end().unwrap(), b"top secret text".to_vec());
    let mut file = reader.by_name_decrypt("secret", b"test").unwrap().unwrap();
    assert_eq!(file.read_to_end().unwrap(), b"top secret text".to_vec());
    // Raw, the payload comes as it is stored: the encrypted header and text.
    let mut raw = reader.by_index_raw(0).unwrap();
    assert_eq!(
        raw.read_to_end().unwrap(),
        zipcrypto_encrypt(b"test", (raw.crc32() >> 24) as u8, b"top secret text")
    );
}

#[test]
fn wrong_password_is_no_error() {
    let reader = ZipArchive::new(encrypted_zip(b"test", b"top secret text", false)).unwrap();
    let mut refused = 0;
    for wrong in [&b"wrong"[..], b"tset", b"", b"Test", b"test1"] {
        match reader.by_index_decrypt(0, wrong) {
            Ok(Err(InvalidPassword)) => refused += 1,
            Ok(Ok(mut file)) => assert!(file.read_to_end().is_err()),
            Err(_) => panic!("a wrong password is an error"),
        }
    }
    // One wrong password in 256 passes the check of one byte.
    assert!(refused >= 4);
}

#[test]
fn password_is_required_for_an_encrypted_entry() {
    let reader = ZipArchive::new(encrypted_zip(b"test", b"text", false)).unwrap();
    match reader.by_index(0) {
        Err(ZipError::UnsupportedArchive(m)) => assert_eq!(m, "Password required to decrypt file"),
        _ => panic!("opened without a password"),
    }
    assert_eq!(zip::result::PASSWORD_REQUIRED, "Password required to decrypt file");
}

#[test]
fn password_for_a_plain_entry_is_left_aside() {
    let reader = ZipArchive::new(mimetype_zip()).unwrap();
    let mut file = reader.by_index_decrypt(0, b"anything").unwrap().unwrap();
    assert_eq!(file.read_to_end().unwrap(), MIMETYPE.to_vec());
}

#[test]
fn entry_with_descriptor_flag_is_checked_against_the_time() {
    let reader = ZipArchive::new(encrypted_zip(b"pw", b"dated", true)).unwrap();
    let mut file = reader.by_index_decrypt(0, b"pw").unwrap().unwrap();
    assert_eq!(file.read_to_end().unwrap(), b"dated".to_vec());
}

#[test]
fn crypto_reader_matrix() {
    let time = DateTime::from_msdos(0x4D71, 0x54CF);
    let payload = zipcrypto_encrypt(b"pw", 0xAB, b"data");
    // no password, no AES: plain text
    let reader =
        make_crypto_reader(CompressionMethod::Stored, 0, time, false, b"abc", None, None, 3)
            .unwrap()
            .unwrap();
    assert!(matches!(reader, CryptoReader::Plaintext(_)));
    assert!(!reader.is_ae2_encrypted());
    assert_eq!(reader.read_to_end().unwrap(), b"abc".to_vec());
    assert_eq!(reader.into_inner(), b"abc");
    // no password, AES: answered as a wrong password
    let aes = Some((AesMode::Aes256, AesVendorVersion::Ae2));
    assert!(matches!(
        make_crypto_reader(CompressionMethod::Stored, 0, time, false, b"abc", None, aes, 3),
        Ok(Err(InvalidPassword))
    ));
    // password and AES: a payload that ends before the check value
    assert!(matches!(
        make_crypto_reader(
            CompressionMethod::Stored,
            0,
            time,
            false,
            &[0u8; 17],
            Some(b"pw"),
            aes,
            17
        ),
        Err(ZipError::Io(_))
    ));
    // password, traditional cipher
    let reader = make_crypto_reader(
        CompressionMethod::Stored,
        0xAB00_0000,
        time,
        false,
        &payload,
        Some(b"pw"),
        None,
        payload.len() as u64,
    )
    .unwrap()
    .unwrap();
    assert!(matches!(reader, CryptoReader::ZipCrypto(_)));
    assert_eq!(reader.read_to_end().unwrap(), b"data".to_vec());
    assert_eq!(reader.into_inner(), &payload[12..]);
    assert!(matches!(
        make_crypto_reader(
            CompressionMethod::Stored,
            0xAC00_0000,
            time,
            false,
            &payload,
            Some(b"pw"),
            None,
            payload.len() as u64
        ),
        Ok(Err(InvalidPassword))
    ));
    // a payload that is too short for the header
    assert!(matches!(
        make_crypto_reader(
            CompressionMethod::Stored,
            0,
            time,
            false,
            &payload[..11],
            Some(b"pw"),
            None,
            11
        ),
        Err(ZipError::Io(_))
    ));
    // a method that is not decoded
    for method in [
        CompressionMethod::Unsupported(77),
        CompressionMethod::Deflate64,
        CompressionMethod::Lzma,
        CompressionMethod::Aes,
    ] {
        match make_crypto_reader(method, 0, time, false, b"abc", None, None, 3) {
            Err(ZipError::UnsupportedArchive(m)) => {
                assert_eq!(m, "Compression method not supported")
            }
            _ => panic!("method accepted"),
        }
    }
}

#[test]
fn unsupported_error_carries_its_detail() {
    let r: Result<(), ZipError> = unsupported_zip_error("detail");
    let e = r.unwrap_err();
    assert!(matches!(e, ZipError::UnsupportedArchive("detail")));
    assert_eq!(e.detail(), "detail");
    assert!(!e.is_io());
    assert_eq!(ZipError::FileNotFound.detail(), "");
}

/// An archive with one entry whose payload is given as it is stored.
fn archive_with_payload(method: u16, payload: &[u8], plain: &[u8], local_extra: &[u8]) -> Vec<u8> {
    let crc = zip::crc32::checksum(plain);
    let local = LocalFileHeader {
        version_needed: 20,
        flags: 0,
        compression_method: method,
        last_mod_time: 0,
        last_mod_date: 33,
        crc32: crc,
        compressed_size: payload.len() as u32,
        uncompressed_size: plain.len() as u32,
        file_name: b"entry".to_vec(),
        extra_field: local_extra.to_vec(),
    };
    let mut out = Vec::new();
    local.write(&mut out).unwrap();
    out.extend_from_slice(payload);
    let central_start = out.len() as u32;
    let central = CentralDirectoryHeader {
        version_made_by: 20,
        version_needed: 20,
        flags: 0,
        compression_method: method,
        last_mod_time: 0,
        last_mod_date: 33,
        crc32: crc,
        compressed_size: payload.len() as u32,
        uncompressed_size: plain.len() as u32,
        disk_number_start: 0,
        internal_attributes: 0,
        external_attributes: 0x10,
        relative_offset: 0,
        file_name: b"entry".to_vec(),
        extra_field: Vec::new(),
        file_comment: b"a comment".to_vec(),
    };
    central.write(&mut out).unwrap();
    let end = CentralDirectoryEnd {
        disk_number: 0,
        disk_with_central_directory: 0,
        number_of_files_on_this_disk: 1,
        number_of_files: 1,
        central_directory_size: out.len() as u32 - central_start,
        central_directory_offset: central_start,
        zip_file_comment: b"archive comment".to_vec(),
    };
    end.write(&mut out).unwrap();
    out
}

fn text() -> Vec<u8> {
    let mut plain = Vec::new();
    for i in 0..500u32 {
        plain.extend_from_slice(format!("line {} of the text\n", i % 7).as_bytes());
    }
    plain
}

#[test]
fn deflated_entry_is_inflated() {
    let plain = text();
    let mut encoder =
        flate2::write::DeflateEncoder::new(Vec::new(), flate2::Compression::default());
    encoder.write_all(&plain).unwrap();
    let payload = encoder.finish().unwrap();
    assert_ne!(payload, plain);
    let reader = ZipArchive::new(archive_with_payload(8, &payload, &plain, &[])).unwrap();
    let mut file = reader.by_index(0).unwrap();
    assert_eq!(file.compression(), CompressionMethod::Deflated);
    assert_eq!(file.read_to_end().unwrap(), plain);
    assert_eq!(file.comment(), "a comment");
    assert_eq!(reader.comment(), b"archive comment");
    assert_eq!(file.compressed_size(), payload.len() as u64);
    assert_eq!(file.size(), plain.len() as u64);
    assert_eq!(file.unix_mode(), Some(0o40775));
}

#[test]
fn bzip2_entry_is_decoded() {
    let plain = text();
    let mut encoder = bzip2::write::BzEncoder::new(Vec::new(), bzip2::Compression::default());
    encoder.write_all(&plain).unwrap();
    let payload = encoder.finish().unwrap();
    assert_ne!(payload, plain);
    let reader = ZipArchive::new(archive_with_payload(12, &payload, &plain, &[])).unwrap();
    let mut file = reader.by_index(0).unwrap();
    assert_eq!(file.compression(), CompressionMethod::Bzip2);
    assert_eq!(file.read_to_end().unwrap(), plain);
}

#[test]
fn zstd_entry_is_decoded() {
    let plain = text();
    let payload = zstd::stream::encode_all(&plain[..], 3).unwrap();
    assert_ne!(payload, plain);
    let reader = ZipArchive::new(archive_with_payload(93, &payload, &plain, &[])).unwrap();
    let mut file = reader.by_index(0).unwrap();
    assert_eq!(file.compression(), CompressionMethod::Zstd);
    assert_eq!(file.read_to_end().unwrap(), plain);
}

#[test]
fn damaged_payload_is_an_io_error() {
    let plain = text();
    for method in [8u16, 12, 93] {
        let reader =
            ZipArchive::new(archive_with_payload(method, &[0xFF; 40], &plain, &[])).unwrap();
        let mut file = reader.by_index(0).unwrap();
        assert!(matches!(file.read_to_end(), Err(ZipError::Io(_))));
    }
}

#[test]
fn unsupported_method_is_refused_when_the_entry_is_opened() {
    let reader = ZipArchive::new(archive_with_payload(9, b"abc", b"abc", &[])).unwrap();
    assert_eq!(reader.entry(0).unwrap().compression_method, CompressionMethod::Deflate64);
    match reader.by_index(0) {
        Err(ZipError::UnsupportedArchive(m)) => assert_eq!(m, "Compression method not supported"),
        _ => panic!("opened"),
    }
    // Raw, the entry can still be read.
    assert_eq!(reader.by_index_raw(0).unwrap().read_to_end().unwrap(), b"abc".to_vec());
}

#[test]
fn data_start_follows_the_local_header() {
    // The local header has an extra field of six bytes, the central one has none.
    let v = archive_with_payload(0, b"payload", b"payload", &[0xCA, 0xFE, 2, 0, 1, 2]);
    let reader = ZipArchive::new(v.clone()).unwrap();
    let mut file = reader.by_index(0).unwrap();
    assert_eq!(file.extra_data(), b"");
    assert_eq!(file.data_start(), 30 + 5 + 6);
    assert_eq!(file.read_to_end().unwrap(), b"payload".to_vec());
    let data = reader.entry(0).unwrap();
    let (start, payload) = find_content(data, &v).unwrap();
    assert_eq!(start, 41);
    assert_eq!(payload, b"payload");
    assert_eq!(data.data_start.load(), 41);
}

#[test]
fn local_header_is_checked_when_the_entry_is_opened() {
    let mut v = archive_with_payload(0, b"payload", b"payload", &[]);
    v[0] = 0;
    let reader = ZipArchive::new(v).unwrap();
    match reader.by_index(0) {
        Err(ZipError::InvalidArchive(m)) => assert_eq!(m, "Invalid local file header"),
        _ => panic!("opened"),
    }
}

#[test]
fn payload_that_is_cut_short_is_read_as_far_as_it_goes() {
    let v = archive_with_payload(0, b"payload", b"payload", &[]);
    let reader = ZipArchive::new(v.clone()).unwrap();
    let data = reader.entry(0).unwrap();
    let (start, payload) = find_content(data, &v[..38]).unwrap();
    assert_eq!(start, 35);
    assert_eq!(payload, b"pay");
    let (start, payload) = find_content(data, &v[..30]).unwrap();
    assert_eq!(start, 35);
    assert_eq!(payload, b"");
    assert!(matches!(find_content(data, &v[..29]), Err(ZipError::Io(_))));
    assert!(matches!(find_content(data, &v[..3]), Err(ZipError::Io(_))));
}

fn header_with_extra(extra: Vec<u8>, sizes: (u32, u32, u32), method: u16) -> CentralDirectoryHeader {
    CentralDirectoryHeader {
        version_made_by: 0x0300 + 46,
        version_needed: 45,
        flags: 0,
        compression_method: method,
        last_mod_time: 0x54CF,
        last_mod_date: 0x4D71,
        crc32: 5,
        compressed_size: sizes.0,
        uncompressed_size: sizes.1,
        disk_number_start: 0,
        internal_attributes: 0,
        external_attributes: 0o100755 << 16,
        relative_offset: sizes.2,
        file_name: vec![b'a', 0x80, b'z'],
        extra_field: extra,
        file_comment: vec![0xe1],
    }
}

#[test]
fn central_header_gives_the_description() {
    let data = central_header_to_zip_file_inner(header_with_extra(vec![], (1, 2, 3), 8), 10, 99)
        .unwrap();
    assert_eq!(data.system, System::Unix);
    assert_eq!(data.version_made_by, 46);
    assert!(!data.encrypted);
    assert!(!data.using_data_descriptor);
    assert_eq!(data.compression_method, CompressionMethod::Deflated);
    assert_eq!(data.compression_level, None);
    assert_eq!(data.last_modified_time.year(), 2018);
    assert_eq!(data.crc32, 5);
    assert_eq!(data.compressed_size, 1);
    assert_eq!(data.uncompressed_size, 2);
    assert_eq!(data.header_start, 13);
    assert_eq!(data.central_header_start, 99);
    assert_eq!(data.data_start.load(), 0);
    // Without the UTF-8 flag, names are code page 437.
    assert_eq!(data.file_name, "a\u{c7}z");
    assert_eq!(data.file_name_raw, vec![b'a', 0x80, b'z']);
    assert_eq!(data.file_comment, "\u{df}");
    assert!(!data.large_file);
    assert_eq!(data.aes_mode, None);
    assert_eq!(data.unix_mode(), Some(0o100755));
    assert_eq!(data.version_needed(), 20);
    assert!(!data.zip64_extension());
}

#[test]
fn utf8_flag_selects_the_decoding_of_names() {
    let mut header = header_with_extra(vec![], (1, 2, 3), 0);
    header.flags = 1 << 11;
    header.file_name = "test/\u{2603}.txt".as_bytes().to_vec();
    header.file_comment = vec![b'o', b'k', 0xFF];
    let data = central_header_to_zip_file_inner(header, 0, 0).unwrap();
    assert_eq!(data.file_name, "test/\u{2603}.txt");
    assert_eq!(
        data.file_name_raw,
        vec![0x74, 0x65, 0x73, 0x74, 0x2f, 0xe2, 0x98, 0x83, 0x2e, 0x74, 0x78, 0x74]
    );
    assert_eq!(data.file_comment, "ok\u{fffd}");
    let mut header = header_with_extra(vec![], (1, 2, 3), 0);
    header.flags = 1 | 8;
    let data = central_header_to_zip_file_inner(header, 0, 0).unwrap();
    assert!(data.encrypted);
    assert!(data.using_data_descriptor);
}

#[test]
fn shifted_header_offset_must_fit() {
    let mut extra = vec![1, 0, 8, 0];
    extra.extend_from_slice(&u64::MAX.to_le_bytes());
    let header = header_with_extra(extra.clone(), (1, 2, 0xFFFF_FFFF), 0);
    match central_header_to_zip_file_inner(header, 1, 0) {
        Err(ZipError::InvalidArchive(m)) => assert_eq!(m, "Archive header is too large"),
        _ => panic!("accepted"),
    }
    let header = header_with_extra(extra, (1, 2, 0xFFFF_FFFF), 0);
    let data = central_header_to_zip_file_inner(header, 0, 0).unwrap();
    assert_eq!(data.header_start, u64::MAX);
    assert!(data.zip64_extension());
    assert_eq!(data.version_needed(), 45);
}

#[test]
fn any_replacement_marks_a_large_file() {
    // The offset of the local header is the only field that is replaced.
    let mut extra = vec![1, 0, 8, 0];
    extra.extend_from_slice(&0x1_2345_6789u64.to_le_bytes());
    let header = header_with_extra(extra.clone(), (1, 2, 0xFFFF_FFFF), 0);
    let data = central_header_to_zip_file_inner(header, 0, 0).unwrap();
    assert_eq!(data.header_start, 0x1_2345_6789);
    assert_eq!((data.compressed_size, data.uncompressed_size), (1, 2));
    assert!(data.large_file);
    let fields = ExtraFields { header_start: 0xFFFF_FFFF, ..plain_fields() };
    let (fields, fault) = walk_extra_field(&extra, fields);
    assert!(fault.is_none());
    assert_eq!(fields.header_start, 0x1_2345_6789);
    assert_eq!((fields.uncompressed_size, fields.compressed_size), (1, 2));
    assert!(fields.large_file);
    // All three are replaced, in the order uncompressed size, compressed size, offset.
    let mut extra = vec![1, 0, 24, 0];
    extra.extend_from_slice(&11u64.to_le_bytes());
    extra.extend_from_slice(&22u64.to_le_bytes());
    extra.extend_from_slice(&33u64.to_le_bytes());
    let header = header_with_extra(extra, (0xFFFF_FFFF, 0xFFFF_FFFF, 0xFFFF_FFFF), 0);
    let data = central_header_to_zip_file_inner(header, 0, 0).unwrap();
    assert_eq!((data.uncompressed_size, data.compressed_size, data.header_start), (11, 22, 33));
    assert!(data.large_file);
    // Nothing is replaced: the mark is not set.
    let mut extra = vec![1, 0, 8, 0];
    extra.extend_from_slice(&44u64.to_le_bytes());
    let (fields, fault) = walk_extra_field(&extra, plain_fields());
    assert!(fault.is_none());
    assert!(!fields.large_file);
    assert_eq!(fields.header_start, 3);
}

#[test]
fn zip64_extra_replaces_saturated_fields_only() {
    let mut extra = vec![0x99, 0x88, 2, 0, 0xAA, 0xBB, 1, 0, 16, 0];
    extra.extend_from_slice(&0x1_0000_0001u64.to_le_bytes());
    extra.extend_from_slice(&0x2_0000_0002u64.to_le_bytes());
    let header = header_with_extra(extra, (0xFFFF_FFFF, 0xFFFF_FFFF, 7), 0);
    let data = central_header_to_zip_file_inner(header, 0, 0).unwrap();
    assert_eq!(data.uncompressed_size, 0x1_0000_0001);
    assert_eq!(data.compressed_size, 0x2_0000_0002);
    assert_eq!(data.header_start, 7);
    assert!(data.large_file);

    let mut extra = vec![1, 0, 8, 0];
    extra.extend_from_slice(&0x3_0000_0003u64.to_le_bytes());
    let header = header_with_extra(extra, (0xFFFF_FFFF, 5, 7), 0);
    let data = central_header_to_zip_file_inner(header, 0, 0).unwrap();
    assert_eq!(data.uncompressed_size, 5);
    assert_eq!(data.compressed_size, 0x3_0000_0003);
    assert!(data.large_file);

    // Nothing is saturated: the record is passed over.
    let mut extra = vec![1, 0, 8, 0];
    extra.extend_from_slice(&0x3_0000_0003u64.to_le_bytes());
    let header = header_with_extra(extra, (4, 5, 7), 0);
    let data = central_header_to_zip_file_inner(header, 0, 0).unwrap();
    assert_eq!((data.compressed_size, data.uncompressed_size, data.header_start), (4, 5, 7));
    assert!(!data.large_file);
}

#[test]
fn extra_field_that_is_cut_short_ends_early() {
    // The record says eight bytes and holds four.
    let extra = vec![1, 0, 8, 0, 1, 2, 3, 4];
    let header = header_with_extra(extra, (4, 0xFFFF_FFFF, 7), 0);
    let data = central_header_to_zip_file_inner(header, 0, 0).unwrap();
    assert_eq!(data.uncompressed_size, 0xFFFF_FFFF);
    assert!(data.large_file);
    // A tag without a length.
    let header = header_with_extra(vec![1, 0, 8], (4, 5, 7), 0);
    assert!(central_header_to_zip_file_inner(header, 0, 0).is_ok());
}

fn plain_fields() -> ExtraFields {
    ExtraFields {
        uncompressed_size: 1,
        compressed_size: 2,
        header_start: 3,
        large_file: false,
        aes_mode: None,
        compression_method: CompressionMethod::Aes,
    }
}

#[test]
fn aes_record_is_read() {
    let extra = vec![0x01, 0x99, 7, 0, 2, 0, 0x41, 0x45, 3, 8, 0, 0x55, 0x66, 0, 0];
    let (fields, fault) = walk_extra_field(&extra, plain_fields());
    assert!(fault.is_none());
    assert_eq!(fields.aes_mode, Some((AesMode::Aes256, AesVendorVersion::Ae2)));
    assert_eq!(fields.compression_method, CompressionMethod::Deflated);
    let extra = vec![0x01, 0x99, 7, 0, 1, 0, 0x41, 0x45, 1, 0, 0];
    let (fields, fault) = walk_extra_field(&extra, plain_fields());
    assert!(fault.is_none());
    assert_eq!(fields.aes_mode, Some((AesMode::Aes128, AesVendorVersion::Ae1)));
    assert_eq!(fields.compression_method, CompressionMethod::Stored);
    let extra = vec![0x01, 0x99, 7, 0, 1, 0, 0x41, 0x45, 2, 12, 0];
    let (fields, _) = walk_extra_field(&extra, plain_fields());
    assert_eq!(fields.aes_mode, Some((AesMode::Aes192, AesVendorVersion::Ae1)));
    assert_eq!(fields.compression_method, CompressionMethod::Bzip2);
}

#[test]
fn aes_record_errors() {
    let check = |extra: Vec<u8>| walk_extra_field(&extra, plain_fields()).1;
    assert!(matches!(
        check(vec![0x01, 0x99, 8, 0, 2, 0, 0x41, 0x45, 3, 8, 0, 0]),
        Some(ZipError::UnsupportedArchive("AES extra data field has an unsupported length"))
    ));
    assert!(matches!(
        check(vec![0x01, 0x99, 7, 0, 2, 0, 0x41, 0x46, 3, 8, 0]),
        Some(ZipError::InvalidArchive("Invalid AES vendor"))
    ));
    assert!(matches!(
        check(vec![0x01, 0x99, 7, 0, 3, 0, 0x41, 0x45, 3, 8, 0]),
        Some(ZipError::InvalidArchive("Invalid AES vendor version"))
    ));
    assert!(matches!(
        check(vec![0x01, 0x99, 7, 0, 2, 0, 0x41, 0x45, 4, 8, 0]),
        Some(ZipError::InvalidArchive("Invalid AES encryption strength"))
    ));
    assert!(matches!(
        check(vec![0x01, 0x99, 7, 0, 2, 0, 0x41, 0x45, 3, 8]),
        Some(ZipError::Io(_))
    ));
}

#[test]
fn aes_entry_needs_its_record() {
    let header = header_with_extra(vec![], (1, 2, 3), 99);
    match central_header_to_zip_file_inner(header, 0, 0) {
        Err(ZipError::InvalidArchive(m)) => {
            assert_eq!(m, "AES encryption without AES extra data field")
        }
        _ => panic!("accepted"),
    }
    let header = header_with_extra(
        vec![0x01, 0x99, 7, 0, 2, 0, 0x41, 0x45, 3, 8, 0],
        (1, 2, 3),
        99,
    );
    let data = central_header_to_zip_file_inner(header, 0, 0).unwrap();
    assert_eq!(data.compression_method, CompressionMethod::Deflated);
    assert_eq!(data.aes_mode, Some((AesMode::Aes256, AesVendorVersion::Ae2)));
    assert_eq!(AesMode::Aes128.key_length(), 16);
    assert_eq!(AesMode::Aes192.key_length(), 24);
    assert_eq!(AesMode::Aes256.key_length(), 32);
    assert_eq!(AesMode::Aes128.salt_length(), 8);
    assert_eq!(AesMode::Aes192.salt_length(), 12);
    assert_eq!(AesMode::Aes256.salt_length(), 16);
    let header = header_with_extra(
        vec![0x01, 0x99, 7, 0, 9, 0, 0x41, 0x45, 3, 8, 0],
        (1, 2, 3),
        99,
    );
    assert!(central_header_to_zip_file_inner(header, 0, 0).is_err());
}

#[test]
fn central_header_is_read_where_it_stands() {
    let v = mimetype_zip();
    let (data, next) = central_header_to_zip_file(&v, 77, 0).unwrap();
    assert_eq!(data.file_name, "mimetype");
    assert_eq!(data.central_header_start, 77);
    assert_eq!(next, 77 + 46 + 8);
    assert!(matches!(
        central_header_to_zip_file(&v, 0, 0),
        Err(ZipError::InvalidArchive("Invalid Central Directory header"))
    ));
    assert!(matches!(central_header_to_zip_file(&v, v.len() as u64, 0), Err(ZipError::Io(_))));
    assert!(matches!(
        central_header_to_zip_file(&v, v.len() as u64 + 1, 0),
        Err(ZipError::Io(_))
    ));
}

#[test]
fn stream_ends_at_the_central_directory() {
    let v = files_and_dirs_zip();
    let mut at = 0;
    let mut names = Vec::new();
    while let Some((mut file, consumed)) = read_zipfile_from_stream(&v[at..]).unwrap() {
        names.push(file.name().to_string());
        file.read_to_end().unwrap();
        assert_eq!(file.comment(), "");
        assert_eq!(file.unix_mode(), None);
        at += consumed;
    }
    assert_eq!(names, vec!["dir1/", "dir1/file1", "dir1/dir2/", "dir1/dir2/file2", "file3"]);
    assert_eq!(&v[at..at + 4], &[0x50, 0x4b, 0x01, 0x02]);
}

#[test]
fn stream_errors() {
    assert!(matches!(read_zipfile_from_stream(&[0x50, 0x4b]), Err(ZipError::Io(_))));
    assert!(matches!(
        read_zipfile_from_stream(&[1, 2, 3, 4, 5]),
        Err(ZipError::InvalidArchive("Invalid local file header"))
    ));
    let v = encrypted_zip(b"pw", b"text", false);
    assert!(matches!(
        read_zipfile_from_stream(&v),
        Err(ZipError::UnsupportedArchive("Encrypted files are not supported"))
    ));
    let mut zip = ZipWriter::new_streaming();
    zip.start_file("streamed", stored()).unwrap();
    zip.write_all(b"abc").unwrap();
    let v = zip.finish().unwrap();
    assert!(matches!(
        read_zipfile_from_stream(&v),
        Err(ZipError::UnsupportedArchive("The file length is not available in the local header"))
    ));
    let v = archive_with_payload(14, b"abc", b"abc", &[]);
    assert!(matches!(
        read_zipfile_from_stream(&v),
        Err(ZipError::UnsupportedArchive("Compression method not supported"))
    ));
    let v = mimetype_zip();
    assert!(matches!(read_zipfile_from_stream(&v[..20]), Err(ZipError::Io(_))));
}

#[test]
fn entry_decoder_and_reader_are_made_by_method() {
    let reader = ZipArchive::new(mimetype_zip()).unwrap();
    let data = reader.entry(0).unwrap();
    let entry = ZipEntry::from_data(data, MIMETYPE);
    assert!(matches!(entry, ZipEntry::Stored(_)));
    assert_eq!(entry.read_to_end().unwrap(), MIMETYPE.to_vec());
    let crc = zip::crc32::checksum(b"abc");
    let checked = make_reader(CompressionMethod::Stored, crc, CryptoReader::Plaintext(b"abc"));
    assert_eq!(checked.read_to_end().unwrap(), b"abc".to_vec());
    assert_eq!(checked.into_inner(), b"abc");
    let checked = make_reader(CompressionMethod::Stored, crc + 1, CryptoReader::Plaintext(b"abc"));
    assert!(matches!(
        checked.read_to_end(),
        Err(ZipError::Crc32Mismatch { expected, actual }) if expected == crc + 1 && actual == crc
    ));
}

#[test]
fn keys_of_the_traditional_cipher() {
    let keys = ZipCryptoKeys::new();
    assert_eq!((keys.key_0, keys.key_1, keys.key_2), (0x12345678, 0x23456789, 0x34567890));
    let mut keys = ZipCryptoKeys::new();
    keys.update(b'a');
    let key_0 = zip::crc32::update_byte(0x12345678, b'a');
    let key_1 = (0x23456789u32.wrapping_add(key_0 & 0xff)).wrapping_mul(134775813).wrapping_add(1);
    let key_2 = zip::crc32::update_byte(0x34567890, (key_1 >> 24) as u8);
    assert_eq!((keys.key_0, keys.key_1, keys.key_2), (key_0, key_1, key_2));
    let temp = (key_2 as u16) | 3;
    assert_eq!(keys.stream_byte(), (temp.wrapping_mul(temp ^ 1) >> 8) as u8);
    assert_eq!(zip::zipcrypto::derive_keys(b"a"), keys);
    let cipher = zipcrypto_encrypt(b"secret", 0, b"hello world");
    let plain = zip::zipcrypto::decrypt(zip::zipcrypto::derive_keys(b"secret"), &cipher);
    assert_eq!(&plain[12..], b"hello world");
    assert_ne!(&cipher[12..], b"hello world");
}
