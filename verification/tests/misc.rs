use zip::compression::CompressionMethod;
use zip::cp437::{from_cp437, to_char};
use zip::crc32::{check_end, checksum, update_byte, Crc32Reader, Hasher};
use zip::end_of_central_directory_record::END_OF_CENTRAL_DIRECTORY_RECORD;
use zip::limit::{
    wrapped_kind, Completion, Limiter, PollStep, ReadAdapter, ReaderWrapper, StoredReader,
    WorkerStep, WrappedKind,
};
use zip::records::CentralDirectoryEnd;
use zip::result::ZipError;
use zip::types::{AtomicU64, DateTime, System, ZipFileData};

#[test]
fn checksum_of_known_text() {
    assert_eq!(checksum(b""), 0);
    assert_eq!(checksum(b"123456789"), 0xCBF4_3926);
    assert_eq!(checksum(b"The quick brown fox jumps over the lazy dog"), 0x414F_A339);
    assert_eq!(checksum(b"a"), 0xE8B7_BE43);
    assert_eq!(update_byte(0xFFFF_FFFF, b'a') ^ 0xFFFF_FFFF, 0xE8B7_BE43);
    let mut hasher = Hasher::new();
    hasher.update(b"1234");
    hasher.update(b"");
    hasher.update(b"56789");
    assert_eq!(hasher.finalize(), 0xCBF4_3926);
}

#[test]
fn checked_reader_compares_at_the_end() {
    let mut reader = Crc32Reader::new((), 0xCBF4_3926, false);
    assert!(reader.observe(b"12345xxx", 5).is_ok());
    assert!(reader.observe(b"6789", 4).is_ok());
    // A read into no room is no end.
    assert!(reader.observe(b"", 0).is_ok());
    assert!(reader.observe(b"r", 0).is_ok());
    assert_eq!(reader.expected(), 0xCBF4_3926);
    assert!(!reader.is_unchecked());
    reader.into_inner();

    let mut reader = Crc32Reader::new((), 1, false);
    reader.observe(b"123456789", 9).unwrap();
    assert!(matches!(
        reader.observe(b"r", 0),
        Err(ZipError::Crc32Mismatch { expected: 1, actual: 0xCBF4_3926 })
    ));
    // An AE-2 entry is not checked.
    let mut reader = Crc32Reader::new((), 1, true);
    reader.observe(b"123456789", 9).unwrap();
    assert!(reader.observe(b"r", 0).is_ok());
    assert!(check_end(b"123456789", 1, true).is_ok());
    assert!(check_end(b"123456789", 0xCBF4_3926, false).is_ok());
    assert!(matches!(
        check_end(b"123456789", 2, false),
        Err(ZipError::Crc32Mismatch { expected: 2, actual: 0xCBF4_3926 })
    ));
}

#[test]
fn code_page_437() {
    assert_eq!(to_char(0x41), 'A');
    assert_eq!(to_char(0x00), '\0');
    assert_eq!(to_char(0x7f), '\u{7f}');
    assert_eq!(to_char(0x80), '\u{c7}');
    assert_eq!(to_char(0x9e), '\u{20a7}');
    assert_eq!(to_char(0xb0), '\u{2591}');
    assert_eq!(to_char(0xe1), '\u{df}');
    assert_eq!(to_char(0xfe), '\u{25a0}');
    assert_eq!(to_char(0xff), '\u{a0}');
    assert_eq!(from_cp437(b"abc"), "abc");
    assert_eq!(from_cp437(&[0x81, b'b', 0x82, b'r']), "\u{fc}b\u{e9}r");
    assert_eq!(from_cp437(&[]), "");
    let all: Vec<u8> = (0..=255u8).collect();
    let text = from_cp437(&all);
    assert_eq!(text.chars().count(), 256);
    let mut seen = std::collections::HashSet::new();
    for c in text.chars() {
        assert!(seen.insert(c));
    }
}

#[test]
fn compression_method_codes() {
    for code in 0..=u16::MAX {
        assert_eq!(CompressionMethod::from_u16(code).to_u16(), code);
    }
    assert_eq!(CompressionMethod::from_u16(0), CompressionMethod::Stored);
    assert_eq!(CompressionMethod::from_u16(1), CompressionMethod::Shrunk);
    assert_eq!(CompressionMethod::from_u16(5), CompressionMethod::Reduce4);
    assert_eq!(CompressionMethod::from_u16(6), CompressionMethod::Implode);
    assert_eq!(CompressionMethod::from_u16(7), CompressionMethod::Unsupported(7));
    assert_eq!(CompressionMethod::from_u16(8), CompressionMethod::Deflated);
    assert_eq!(CompressionMethod::from_u16(9), CompressionMethod::Deflate64);
    assert_eq!(CompressionMethod::from_u16(12), CompressionMethod::Bzip2);
    assert_eq!(CompressionMethod::from_u16(14), CompressionMethod::Lzma);
    assert_eq!(CompressionMethod::from_u16(93), CompressionMethod::Zstd);
    assert_eq!(CompressionMethod::from_u16(94), CompressionMethod::Mp3);
    assert_eq!(CompressionMethod::from_u16(95), CompressionMethod::Xz);
    assert_eq!(CompressionMethod::from_u16(96), CompressionMethod::Jpeg);
    assert_eq!(CompressionMethod::from_u16(97), CompressionMethod::WavPack);
    assert_eq!(CompressionMethod::from_u16(98), CompressionMethod::Ppmd);
    assert_eq!(CompressionMethod::from_u16(99), CompressionMethod::Aes);
    assert!(CompressionMethod::Stored.is_supported());
    assert!(CompressionMethod::Deflated.is_supported());
    assert!(CompressionMethod::Bzip2.is_supported());
    assert!(CompressionMethod::Zstd.is_supported());
    assert!(!CompressionMethod::Aes.is_supported());
    assert!(!CompressionMethod::Unsupported(0).is_supported());
    assert_eq!(System::from_u8(0), System::Dos);
    assert_eq!(System::from_u8(3), System::Unix);
    assert_eq!(System::from_u8(1), System::Unknown);
    assert_eq!(System::from_u8(255), System::Unknown);
}

fn entry(system: System, external_attributes: u32) -> ZipFileData {
    ZipFileData {
        system,
        version_made_by: 0,
        encrypted: false,
        using_data_descriptor: false,
        compression_method: CompressionMethod::Stored,
        compression_level: None,
        last_modified_time: DateTime::default(),
        crc32: 0,
        compressed_size: 0,
        uncompressed_size: 0,
        file_name: String::new(),
        file_name_raw: Vec::new(),
        extra_field: Vec::new(),
        file_comment: String::new(),
        header_start: 0,
        data_start: AtomicU64::new(0),
        central_header_start: 0,
        external_attributes,
        large_file: false,
        aes_mode: None,
    }
}

#[test]
fn unix_mode_by_system() {
    assert_eq!(entry(System::Unix, 0).unix_mode(), None);
    assert_eq!(entry(System::Dos, 0).unix_mode(), None);
    assert_eq!(entry(System::Unix, 0o100644 << 16).unix_mode(), Some(0o100644));
    assert_eq!(entry(System::Unix, 0x0001_0001).unix_mode(), Some(1));
    assert_eq!(entry(System::Dos, 0x10).unix_mode(), Some(0o40775));
    assert_eq!(entry(System::Dos, 0x11).unix_mode(), Some(0o555));
    assert_eq!(entry(System::Dos, 0x20).unix_mode(), Some(0o100664));
    assert_eq!(entry(System::Dos, 0x21).unix_mode(), Some(0o444));
    assert_eq!(entry(System::Unknown, 0x10).unix_mode(), None);
}

#[test]
fn version_needed_by_entry() {
    let mut data = entry(System::Unix, 0);
    assert_eq!(data.version_needed(), 20);
    data.compressed_size = 0x1_0000_0000;
    assert!(data.zip64_extension());
    assert_eq!(data.version_needed(), 45);
    data.compression_method = CompressionMethod::Bzip2;
    assert_eq!(data.version_needed(), 46);
    data.compressed_size = 0xFFFF_FFFF;
    assert!(!data.zip64_extension());
    assert_eq!(data.version_needed(), 46);
    data.header_start = 0x1_0000_0000;
    assert!(data.zip64_extension());
}

#[test]
fn atomic_slot() {
    let mut slot = AtomicU64::new(5);
    assert_eq!(slot.load(), 5);
    slot.store(7);
    assert_eq!(slot.load(), 7);
    *slot.get_mut() = 9;
    assert_eq!(slot.clone().load(), 9);
}

#[test]
fn limiter_counts_down() {
    let mut limiter = Limiter::take("source", 10);
    assert_eq!(limiter.remaining_len(), 10);
    assert_eq!(limiter.limit_length(4), 4);
    assert_eq!(limiter.limit_length(40), 10);
    limiter.push_cursor(4);
    assert_eq!(limiter.remaining_len(), 6);
    assert_eq!(limiter.limit_length(7), 6);
    limiter.push_cursor(6);
    assert_eq!(limiter.remaining_len(), 0);
    assert_eq!(limiter.limit_length(1), 0);
    assert_eq!(limiter.into_inner(), "source");
}

#[test]
fn stored_reader_wraps_a_limiter() {
    let mut data = entry(System::Unix, 0);
    data.crc32 = 0xCBF4_3926;
    let reader = StoredReader::construct(&data, Limiter::take((), 9));
    assert_eq!(reader.0.expected(), 0xCBF4_3926);
    assert!(!reader.0.is_unchecked());
    let limiter = reader.into_inner();
    assert_eq!(limiter.remaining_len(), 9);
    assert_eq!(wrapped_kind(CompressionMethod::Stored).unwrap(), WrappedKind::Stored);
    assert_eq!(wrapped_kind(CompressionMethod::Deflated).unwrap(), WrappedKind::Deflated);
    assert_eq!(wrapped_kind(CompressionMethod::Bzip2).unwrap(), WrappedKind::Bzip2);
    assert!(matches!(
        wrapped_kind(CompressionMethod::Zstd),
        Err(ZipError::UnsupportedArchive("Compression method not supported"))
    ));
}

#[test]
fn bridge_between_worker_and_poll() {
    let mut adapter = ReadAdapter::new();
    assert!(matches!(adapter.poll_read(4, Completion::Pending), PollStep::StartRead(4)));
    assert_eq!(adapter.absorb(b"hello world"), WorkerStep::Wake);
    match adapter.poll_read(4, Completion::Pending) {
        PollStep::Deliver(bytes) => assert_eq!(bytes, b"hell".to_vec()),
        _ => panic!("bytes that are there are delivered"),
    }
    // Bytes that are there come before the end of the reader.
    match adapter.poll_read(100, Completion::Finished) {
        PollStep::Deliver(bytes) => assert_eq!(bytes, b"o world".to_vec()),
        _ => panic!("bytes that are there are delivered"),
    }
    assert_eq!(adapter.absorb(b""), WorkerStep::Complete);
    assert!(matches!(adapter.poll_read(1, Completion::Finished), PollStep::EndOfStream));
    assert!(matches!(adapter.poll_read(1, Completion::Failed), PollStep::Fail));
    assert!(matches!(adapter.poll_read(7, Completion::Pending), PollStep::StartRead(7)));
}

fn strict_sample(comment: &[u8]) -> Vec<u8> {
    let end = CentralDirectoryEnd {
        disk_number: 0,
        disk_with_central_directory: 0,
        number_of_files_on_this_disk: 2,
        number_of_files: 2,
        central_directory_size: 0x30,
        central_directory_offset: 0x40,
        zip_file_comment: comment.to_vec(),
    };
    let mut out = vec![9u8; 50];
    end.write(&mut out).unwrap();
    out
}

#[test]
fn strict_search_for_the_end_record() {
    assert_eq!(END_OF_CENTRAL_DIRECTORY_RECORD::size(), 22);
    assert_eq!(END_OF_CENTRAL_DIRECTORY_RECORD::signature(), 0x06054b50);
    assert_eq!(END_OF_CENTRAL_DIRECTORY_RECORD::name(), "[End of central directory record]");
    let data = strict_sample(b"comment");
    assert_eq!(END_OF_CENTRAL_DIRECTORY_RECORD::find(&data).unwrap(), 50);
    let (record, pos) = END_OF_CENTRAL_DIRECTORY_RECORD::load(&data).unwrap();
    assert_eq!(pos, 50);
    assert_eq!(record.number_of_files, 2);
    assert_eq!(record.central_directory_size, 0x30);
    assert_eq!(record.central_directory_offset, 0x40);
    assert_eq!(record.zip_file_comment, b"comment".to_vec());
    let mut again = vec![9u8; 50];
    record.write(&mut again).unwrap();
    assert_eq!(again, data);
}

#[test]
fn strict_search_wants_the_comment_to_end_the_archive() {
    // One byte behind the comment: the lenient search finds the record, the strict one not.
    let mut data = strict_sample(b"comment");
    data.push(0);
    assert!(CentralDirectoryEnd::find_and_parse(&data).is_ok());
    assert!(matches!(
        END_OF_CENTRAL_DIRECTORY_RECORD::find(&data),
        Err(ZipError::InvalidArchive("Could not find central directory end"))
    ));
    assert!(END_OF_CENTRAL_DIRECTORY_RECORD::load(&data).is_err());
    assert!(END_OF_CENTRAL_DIRECTORY_RECORD::load(&[]).is_err());
    assert!(END_OF_CENTRAL_DIRECTORY_RECORD::load(&[0; 21]).is_err());
    // A signature inside the comment does not count: its comment would not end the archive.
    let data = strict_sample(&[0x50, 0x4b, 0x05, 0x06, 0, 0, 0, 0, 0, 0, 0, 0, 0, 0, 0, 0, 0, 0, 0, 0, 9, 9, 1]);
    assert_eq!(END_OF_CENTRAL_DIRECTORY_RECORD::find(&data).unwrap(), 50);
}
