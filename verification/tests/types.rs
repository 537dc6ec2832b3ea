use zip::compression::CompressionMethod;
use zip::types::{AtomicU64, DateTime, System, ZipFileData};

#[test]
fn system() {
    assert_eq!(u8::from(System::Dos), 0u8);
    assert_eq!(System::Dos.to_u8(), 0u8);
    assert_eq!(System::Unix.to_u8(), 3u8);
    assert_eq!(u8::from(System::Unix), 3u8);
    assert_eq!(System::from(0), System::Dos);
    assert_eq!(System::from(3), System::Unix);
    assert_eq!(u8::from(System::Unknown), 4u8);
    assert_eq!(System::Unknown.to_u8(), 4u8);
}

#[test]
fn sanitize() {
    let file_name = "/path/../../../../etc/./passwd\0/etc/shadow".to_string();
    let data = ZipFileData {
        system: System::Dos,
        version_made_by: 0,
        encrypted: false,
        using_data_descriptor: false,
        compression_method: CompressionMethod::Stored,
        compression_level: None,
        last_modified_time: DateTime::default(),
        crc32: 0,
        compressed_size: 0,
        uncompressed_size: 0,
        file_name: file_name.clone(),
        file_name_raw: file_name.into_bytes(),
        extra_field: Vec::new(),
        file_comment: String::new(),
        header_start: 0,
        data_start: AtomicU64::new(0),
        central_header_start: 0,
        external_attributes: 0,
        large_file: false,
        aes_mode: None,
    };
    assert_eq!(
        ::std::path::PathBuf::from(data.file_name_sanitized()),
        ::std::path::PathBuf::from("path/etc/passwd")
    );
}

#[test]
fn datetime_default() {
    let dt = DateTime::default();
    assert_eq!(dt.timepart(), 0);
    assert_eq!(dt.datepart(), 0b0000000_0001_00001);
}

#[test]
fn datetime_max() {
    let dt = DateTime::parse_from_date_and_time(2107, 12, 31, 23, 59, 60).unwrap();
    assert_eq!(dt.timepart(), 0b10111_111011_11110);
    assert_eq!(dt.datepart(), 0b1111111_1100_11111);
}

#[test]
fn datetime_bounds() {
    assert!(DateTime::parse_from_date_and_time(2000, 1, 1, 23, 59, 60).is_ok());
    assert!(DateTime::parse_from_date_and_time(2000, 1, 1, 24, 0, 0).is_err());
    assert!(DateTime::parse_from_date_and_time(2000, 1, 1, 0, 60, 0).is_err());
    assert!(DateTime::parse_from_date_and_time(2000, 1, 1, 0, 0, 61).is_err());

    assert!(DateTime::parse_from_date_and_time(2107, 12, 31, 0, 0, 0).is_ok());
    assert!(DateTime::parse_from_date_and_time(1980, 1, 1, 0, 0, 0).is_ok());
    assert!(DateTime::parse_from_date_and_time(1979, 1, 1, 0, 0, 0).is_err());
    assert!(DateTime::parse_from_date_and_time(1980, 0, 1, 0, 0, 0).is_err());
    assert!(DateTime::parse_from_date_and_time(1980, 1, 0, 0, 0, 0).is_err());
    assert!(DateTime::parse_from_date_and_time(2108, 12, 31, 0, 0, 0).is_err());
    assert!(DateTime::parse_from_date_and_time(2107, 13, 31, 0, 0, 0).is_err());
    assert!(DateTime::parse_from_date_and_time(2107, 12, 32, 0, 0, 0).is_err());
}
