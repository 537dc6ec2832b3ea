use zip::headers::{CentralDirectoryHeader, LocalFileHeader};
use zip::records::{
    CentralDirectoryEnd, Zip64CentralDirectoryEnd, Zip64CentralDirectoryEndLocator,
};
use zip::result::ZipError;

#[test]
fn zero_length_zip() {
    let v: Vec<u8> = vec![];
    let cde = CentralDirectoryEnd::find_and_parse(&v);
    assert!(cde.is_err());
}

#[test]
fn invalid_cde_too_small() {
    // This is a valid CDE that _just_ fits (though there's nothing in front of it, so the offsets are wrong)
    let v = vec![
        0x50, 0x4b, 0x05, 0x06, 0x00, 0x00, 0x00, 0x00, 0x03, 0x00, 0x03, 0x00, 0xe5, 0x00, 0x00,
        0x00, 0xd3, 0x00, 0x00, 0x00, 0x00, 0x00,
    ];
    let cde = CentralDirectoryEnd::find_and_parse(&v);
    assert!(cde.is_ok()); // This is ok, the offsets are checked elsewhere.

    // This is the same except the CDE is truncated by 4 bytes
    let cde = CentralDirectoryEnd::find_and_parse(&v[0..v.len() - 4]);
    assert!(cde.is_err());
}

#[test]
fn invalid_cde_missing() {
    let v = [0; 70000]; // something larger than 65536 + CDE size
    let cde = CentralDirectoryEnd::find_and_parse(&v);
    assert!(cde.is_err());

    let v = [0; 256]; // something smaller than 65536 but larger CDE size
    let cde = CentralDirectoryEnd::find_and_parse(&v);
    assert!(cde.is_err());
}

fn zip64_cde_search(cde_start_pos: usize, total_size: usize) -> u64 {
    // 56 byte zip64 Central Directory End
    let cde64 = vec![
        0x50, 0x4b, 0x06, 0x06, 0x2c, 0x00, 0x00, 0x00, 0x00, 0x00, 0x00, 0x00, 0x1e, 0x03, 0x2d,
        0x00, 0x00, 0x00, 0x00, 0x00, 0x00, 0x00, 0x00, 0x00, 0x01, 0x00, 0x00, 0x00, 0x00, 0x00,
        0x00, 0x00, 0x01, 0x00, 0x00, 0x00, 0x00, 0x00, 0x00, 0x00, 0x2f, 0x00, 0x00, 0x00, 0x00,
        0x00, 0x00, 0x00, 0x41, 0x00, 0x00, 0x00, 0x00, 0x00, 0x00, 0x00,
    ];

    let mut haystack = vec![];
    haystack.resize(cde_start_pos, 0u8);
    haystack.extend_from_slice(&cde64);
    haystack.resize(total_size, 0u8);
    let (_, offset) =
        Zip64CentralDirectoryEnd::find_and_parse(&haystack, 0, haystack.len() as u64 - 56)
            .expect("find_and_parse");
    offset
}

#[test]
fn zip64_cde_search_less_than_chunk_at_start() {
    assert_eq!(0, zip64_cde_search(0, 100));
}

#[test]
fn zip64_cde_search_less_than_chunk_in_middle() {
    assert_eq!(100, zip64_cde_search(100, 300));
}

#[test]
fn zip64_cde_search_less_than_chunk_at_end() {
    assert_eq!(100, zip64_cde_search(100, 156));
}

#[test]
fn zip64_cde_search_more_than_chunk_at_chunk_start() {
    assert_eq!(4096, zip64_cde_search(4096, 4200));
}

#[test]
fn zip64_cde_search_more_than_chunk_mid_chunk() {
    assert_eq!(5000, zip64_cde_search(5000, 9000));
}

#[test]
fn zip64_cde_search_more_than_chunk_at_chunk_end() {
    assert_eq!(8192 - 56, zip64_cde_search(8192 - 56, 8192));
}

#[test]
fn zip64_cde_search_more_than_chunk_straddling_chunk_end() {
    assert_eq!(4096 - 30, zip64_cde_search(4096 - 30, 4200));
}

fn sample_end() -> CentralDirectoryEnd {
    CentralDirectoryEnd {
        disk_number: 1,
        disk_with_central_directory: 2,
        number_of_files_on_this_disk: 3,
        number_of_files: 0x0405,
        central_directory_size: 0x0607_0809,
        central_directory_offset: 0x0a0b_0c0d,
        zip_file_comment: b"hello".to_vec(),
    }
}

#[test]
fn end_record_is_written_little_endian() {
    let mut out = vec![0xAA];
    sample_end().write(&mut out).unwrap();
    assert_eq!(
        out,
        vec![
            0xAA, 0x50, 0x4b, 0x05, 0x06, 1, 0, 2, 0, 3, 0, 5, 4, 9, 8, 7, 6, 0x0d, 0x0c, 0x0b,
            0x0a, 5, 0, b'h', b'e', b'l', b'l', b'o'
        ]
    );
}

#[test]
fn end_record_round_trip() {
    let mut out = Vec::new();
    sample_end().write(&mut out).unwrap();
    assert_eq!(out.len(), 22 + 5);
    out.extend_from_slice(b"trailing");
    let parsed = CentralDirectoryEnd::parse(&out).unwrap();
    assert_eq!(parsed.disk_number, 1);
    assert_eq!(parsed.disk_with_central_directory, 2);
    assert_eq!(parsed.number_of_files_on_this_disk, 3);
    assert_eq!(parsed.number_of_files, 0x0405);
    assert_eq!(parsed.central_directory_size, 0x0607_0809);
    assert_eq!(parsed.central_directory_offset, 0x0a0b_0c0d);
    assert_eq!(parsed.zip_file_comment, b"hello".to_vec());
    let mut again = Vec::new();
    parsed.write(&mut again).unwrap();
    assert_eq!(again, out[..27].to_vec());
}

#[test]
fn end_record_errors() {
    assert!(matches!(CentralDirectoryEnd::parse(&[0x50, 0x4b]), Err(ZipError::Io(_))));
    let mut out = Vec::new();
    sample_end().write(&mut out).unwrap();
    assert!(matches!(CentralDirectoryEnd::parse(&out[..26]), Err(ZipError::Io(_))));
    out[0] = 0x51;
    assert!(matches!(
        CentralDirectoryEnd::parse(&out),
        Err(ZipError::InvalidArchive("Invalid digital signature header"))
    ));
}

#[test]
fn end_record_too_small_marker() {
    let mut end = sample_end();
    assert!(!end.record_too_small());
    end.number_of_files = 0xFFFF;
    assert!(end.record_too_small());
    let mut end = sample_end();
    end.central_directory_offset = 0xFFFF_FFFF;
    assert!(end.record_too_small());
}

#[test]
fn end_record_search_takes_the_last_signature() {
    let mut data = Vec::new();
    let mut first = sample_end();
    first.zip_file_comment = Vec::new();
    first.disk_number = 7;
    first.write(&mut data).unwrap();
    let second_at = data.len() as u64;
    let mut second = sample_end();
    second.zip_file_comment = Vec::new();
    second.disk_number = 9;
    second.write(&mut data).unwrap();
    let (found, pos) = CentralDirectoryEnd::find_and_parse(&data).unwrap();
    assert_eq!(pos, second_at);
    assert_eq!(found.disk_number, 9);
}

#[test]
fn end_record_search_is_bounded_by_the_longest_comment() {
    let mut data = Vec::new();
    let mut end = sample_end();
    end.zip_file_comment = Vec::new();
    end.write(&mut data).unwrap();
    data.resize(22 + 65535, 0);
    assert!(CentralDirectoryEnd::find_and_parse(&data).is_ok());
    data.push(0);
    match CentralDirectoryEnd::find_and_parse(&data) {
        Err(ZipError::InvalidArchive(m)) => assert_eq!(m, "Could not find central directory end"),
        _ => panic!("the record lies before the scanned range"),
    }
}

#[test]
fn short_archive_has_invalid_zip_header() {
    let data = vec![0u8; 21];
    match CentralDirectoryEnd::find_and_parse(&data) {
        Err(ZipError::InvalidArchive(m)) => assert_eq!(m, "Invalid zip header"),
        _ => panic!("expected an error"),
    }
}

#[test]
fn locator_round_trip() {
    let locator = Zip64CentralDirectoryEndLocator {
        disk_with_central_directory: 0x01020304,
        end_of_central_directory_offset: 0x1112131415161718,
        number_of_disks: 0x21222324,
    };
    let mut out = Vec::new();
    locator.write(&mut out).unwrap();
    assert_eq!(
        out,
        vec![
            0x50, 0x4b, 0x06, 0x07, 4, 3, 2, 1, 0x18, 0x17, 0x16, 0x15, 0x14, 0x13, 0x12, 0x11,
            0x24, 0x23, 0x22, 0x21
        ]
    );
    assert_eq!(Zip64CentralDirectoryEndLocator::parse(&out).unwrap(), locator);
    assert!(matches!(Zip64CentralDirectoryEndLocator::parse(&out[..19]), Err(ZipError::Io(_))));
    out[3] = 0;
    assert!(matches!(
        Zip64CentralDirectoryEndLocator::parse(&out),
        Err(ZipError::InvalidArchive("Invalid zip64 locator digital signature header"))
    ));
}

#[test]
fn zip64_end_round_trip() {
    let end = Zip64CentralDirectoryEnd {
        version_made_by: 0x031e,
        version_needed_to_extract: 45,
        disk_number: 0,
        disk_with_central_directory: 0,
        number_of_files_on_this_disk: 1,
        number_of_files: 1,
        central_directory_size: 0x2f,
        central_directory_offset: 0x41,
    };
    let mut out = Vec::new();
    end.write(&mut out).unwrap();
    assert_eq!(
        out,
        vec![
            0x50, 0x4b, 0x06, 0x06, 0x2c, 0x00, 0x00, 0x00, 0x00, 0x00, 0x00, 0x00, 0x1e, 0x03,
            0x2d, 0x00, 0x00, 0x00, 0x00, 0x00, 0x00, 0x00, 0x00, 0x00, 0x01, 0x00, 0x00, 0x00,
            0x00, 0x00, 0x00, 0x00, 0x01, 0x00, 0x00, 0x00, 0x00, 0x00, 0x00, 0x00, 0x2f, 0x00,
            0x00, 0x00, 0x00, 0x00, 0x00, 0x00, 0x41, 0x00, 0x00, 0x00, 0x00, 0x00, 0x00, 0x00,
        ]
    );
    assert_eq!(Zip64CentralDirectoryEnd::parse(&out).unwrap(), end);
}

#[test]
fn zip64_end_with_another_record_size_is_refused() {
    let end = Zip64CentralDirectoryEnd {
        version_made_by: 45,
        version_needed_to_extract: 45,
        disk_number: 0,
        disk_with_central_directory: 0,
        number_of_files_on_this_disk: 1,
        number_of_files: 1,
        central_directory_size: 10,
        central_directory_offset: 20,
    };
    let mut out = Vec::new();
    end.write(&mut out).unwrap();
    out[4] = 45;
    assert!(matches!(
        Zip64CentralDirectoryEnd::parse(&out),
        Err(ZipError::InvalidArchive("Invalid ZIP64 central directory end record size"))
    ));
    assert!(matches!(
        Zip64CentralDirectoryEnd::find_and_parse(&out, 0, 0),
        Err(ZipError::InvalidArchive("Invalid ZIP64 central directory end record size"))
    ));
}

#[test]
fn zip64_end_search_errors() {
    let data = vec![0u8; 200];
    assert!(matches!(
        Zip64CentralDirectoryEnd::find_and_parse(&data, 0, 144),
        Err(ZipError::InvalidArchive("Could not find ZIP64 central directory end"))
    ));
    // The range reaches beyond the end of the source.
    assert!(matches!(
        Zip64CentralDirectoryEnd::find_and_parse(&data, 0, 145),
        Err(ZipError::Io(_))
    ));
    // An empty range holds nothing.
    assert!(matches!(
        Zip64CentralDirectoryEnd::find_and_parse(&data, 10, 9),
        Err(ZipError::InvalidArchive("Could not find ZIP64 central directory end"))
    ));
}

#[test]
fn zip64_end_search_reports_the_distance_to_the_nominal_offset() {
    let end = Zip64CentralDirectoryEnd {
        version_made_by: 45,
        version_needed_to_extract: 45,
        disk_number: 0,
        disk_with_central_directory: 0,
        number_of_files_on_this_disk: 2,
        number_of_files: 2,
        central_directory_size: 10,
        central_directory_offset: 20,
    };
    let mut data = vec![0u8; 5000];
    end.write(&mut data).unwrap();
    data.resize(6000, 0);
    let (found, offset) =
        Zip64CentralDirectoryEnd::find_and_parse(&data, 4900, 5944).unwrap();
    assert_eq!(found, end);
    assert_eq!(offset, 100);
}

fn sample_central_header() -> CentralDirectoryHeader {
    CentralDirectoryHeader {
        version_made_by: 0x031e,
        version_needed: 20,
        flags: 0x0800,
        compression_method: 8,
        last_mod_time: 0x54CF,
        last_mod_date: 0x4D71,
        crc32: 0xDEADBEEF,
        compressed_size: 100,
        uncompressed_size: 200,
        disk_number_start: 0,
        internal_attributes: 1,
        external_attributes: 0x81a40000,
        relative_offset: 0x1234,
        file_name: b"a/b.txt".to_vec(),
        extra_field: vec![1, 2, 3],
        file_comment: b"note".to_vec(),
    }
}

#[test]
fn central_header_round_trip() {
    let header = sample_central_header();
    let mut out = Vec::new();
    header.write(&mut out).unwrap();
    assert_eq!(out.len(), 46 + 7 + 3 + 4);
    assert_eq!(&out[..4], &[0x50, 0x4b, 0x01, 0x02]);
    assert_eq!(&out[28..34], &[7, 0, 3, 0, 4, 0]);
    assert_eq!(&out[42..46], &[0x34, 0x12, 0, 0]);
    out.extend_from_slice(&[9, 9, 9]);
    let parsed = CentralDirectoryHeader::parse(&out).unwrap();
    assert_eq!(parsed.len(), 60);
    assert_eq!(parsed.version_made_by, 0x031e);
    assert_eq!(parsed.flags, 0x0800);
    assert_eq!(parsed.crc32, 0xDEADBEEF);
    assert_eq!(parsed.external_attributes, 0x81a40000);
    assert_eq!(parsed.file_name, b"a/b.txt".to_vec());
    assert_eq!(parsed.extra_field, vec![1, 2, 3]);
    assert_eq!(parsed.file_comment, b"note".to_vec());
    let mut again = Vec::new();
    parsed.write(&mut again).unwrap();
    assert_eq!(again, out[..60].to_vec());
}

#[test]
fn central_header_errors() {
    let mut out = Vec::new();
    sample_central_header().write(&mut out).unwrap();
    assert!(matches!(CentralDirectoryHeader::parse(&out[..3]), Err(ZipError::Io(_))));
    assert!(matches!(CentralDirectoryHeader::parse(&out[..59]), Err(ZipError::Io(_))));
    out[1] = 0;
    assert!(matches!(
        CentralDirectoryHeader::parse(&out),
        Err(ZipError::InvalidArchive("Invalid Central Directory header"))
    ));
}

#[test]
fn local_header_round_trip() {
    let header = LocalFileHeader {
        version_needed: 20,
        flags: 0,
        compression_method: 0,
        last_mod_time: 1,
        last_mod_date: 33,
        crc32: 0x01020304,
        compressed_size: 5,
        uncompressed_size: 5,
        file_name: b"name".to_vec(),
        extra_field: vec![7, 7],
    };
    let mut out = Vec::new();
    header.write(&mut out).unwrap();
    assert_eq!(out.len(), 30 + 4 + 2);
    assert_eq!(&out[..4], &[0x50, 0x4b, 0x03, 0x04]);
    assert_eq!(&out[26..30], &[4, 0, 2, 0]);
    let parsed = LocalFileHeader::parse(&out).unwrap();
    assert_eq!(parsed.crc32, 0x01020304);
    assert_eq!(parsed.file_name, b"name".to_vec());
    assert_eq!(parsed.extra_field, vec![7, 7]);
    let mut again = Vec::new();
    parsed.write(&mut again).unwrap();
    assert_eq!(again, out);
    assert!(matches!(LocalFileHeader::parse(&out[..35]), Err(ZipError::Io(_))));
    out[0] = 0;
    assert!(matches!(
        LocalFileHeader::parse(&out),
        Err(ZipError::InvalidArchive("Invalid local file header"))
    ));
}
