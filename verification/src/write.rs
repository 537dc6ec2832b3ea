//! Types for creating ZIP archives

use vstd::prelude::*;
use vstd::string::StrSliceExecFns;
use vstd::utf8::encode_utf8;
use vstd::utf8::is_ascii_chars;
use std::io::Write;
use crate::codec::{
    u16_le_bytes, u32_le_bytes, u64_le_bytes, write_u16_le, write_u32_le, write_u64_le,
};
use crate::compression::{code_of_method, CompressionMethod};
use crate::crc32::crc32;
use crate::headers::{
    cdh_bytes, lfh_bytes, CentralDirectoryHeader, CentralDirectoryHeaderView, LocalFileHeader,
    LocalFileHeaderView,
};
use crate::records::{
    eocd_bytes, locator_bytes, zip64_eocd_bytes, CentralDirectoryEnd, CentralDirectoryEndView,
    Zip64CentralDirectoryEnd, Zip64CentralDirectoryEndLocator,
};
use crate::result::{other_error, Fault, ZipError, ZipResult};
use crate::types::{
    code_of_system, version_needed_of, AtomicU64, DateTime, System, ZipFileData, ZipFileDataView,
    DEFAULT_VERSION,
};

verus! {

/// The signature of the data descriptor that follows the payload of an entry whose
/// sizes were not known when its header was written.
pub const DATA_DESCRIPTOR_SIGNATURE: u32 = 0x08074b50;

/// The checksum and the sizes of an entry.
#[derive(Clone, Copy, Debug, PartialEq, Eq, Structural)]
pub struct ZipRawValues {
    pub crc32: u32,
    pub compressed_size: u64,
    pub uncompressed_size: u64,
}

/// Metadata for a file to be written
#[derive(Clone, Copy, Debug)]
pub struct FileOptions {
    pub compression_method: CompressionMethod,
    pub compression_level: Option<i32>,
    pub last_modified_time: DateTime,
    pub permissions: Option<u32>,
    pub large_file: bool,
}

impl FileOptions {
    /// Set the compression method for the new file
    ///
    /// The default is `CompressionMethod::Deflated`.
    pub fn compression_method(self, method: CompressionMethod) -> (r: FileOptions)
        ensures
            r == (FileOptions { compression_method: method, ..self }),
    {
        FileOptions { compression_method: method, ..self }
    }

    /// Set the compression level for the new file
    ///
    /// `None` value specifies default compression level. For Deflate the levels 0 to 9
    /// are accepted; for Stored the level is ignored.
    pub fn compression_level(self, level: Option<i32>) -> (r: FileOptions)
        ensures
            r == (FileOptions { compression_level: level, ..self }),
    {
        FileOptions { compression_level: level, ..self }
    }

    /// Set the last modified time
    ///
    /// The default is 1980-01-01 00:00:00.
    pub fn last_modified_time(self, mod_time: DateTime) -> (r: FileOptions)
        ensures
            r == (FileOptions { last_modified_time: mod_time, ..self }),
    {
        FileOptions { last_modified_time: mod_time, ..self }
    }

    /// Set the permissions for the new file.
    ///
    /// The format is represented with unix-style permissions: only the lowest nine
    /// bits of `mode` are kept. The default is `0o644`, which represents `rw-r--r--`
    /// for files, and `0o755`, which represents `rwxr-xr-x` for directories.
    pub fn unix_permissions(self, mode: u32) -> (r: FileOptions)
        ensures
            r == (FileOptions { permissions: Some((mode % 512) as u32), ..self }),
    {
        assert(mode & 0o777 == mode % 512) by (bit_vector);
        FileOptions { permissions: Some(mode & 0o777), ..self }
    }

    /// Set whether the new file's compressed and uncompressed size is less than 4 GiB.
    ///
    /// If set to `false` and the file exceeds the limit, an I/O error is thrown. If set
    /// to `true`, readers will require ZIP64 support and if the file does not exceed
    /// the limit, 20 B are wasted. The default is `false`.
    pub fn large_file(self, large: bool) -> (r: FileOptions)
        ensures
            r == (FileOptions { large_file: large, ..self }),
    {
        FileOptions { large_file: large, ..self }
    }
}

impl Default for FileOptions {
    /// Construct a new FileOptions object
    fn default() -> (r: Self)
        ensures
            r.compression_method == CompressionMethod::Deflated,
            r.compression_level is None,
            r.last_modified_time.same_as(
                DateTime::spec_from_msdos(0b0000000_0001_00001, 0),
            ),
            r.permissions is None,
            !r.large_file,
    {
        FileOptions {
            compression_method: CompressionMethod::Deflated,
            compression_level: None,
            last_modified_time: DateTime::from_msdos(0b0000000_0001_00001, 0),
            permissions: None,
            large_file: false,
        }
    }
}

/// The external attributes of an entry with the given Unix mode: the mode in the upper
/// 16 bits.
pub open spec fn attributes_of_mode(mode: u32) -> u32 {
    ((mode as int % 65536) * 65536) as u32
}

/// The description that an entry has when it is started.
pub open spec fn initial_entry(
    raw: ZipRawValues,
    options: FileOptions,
    header_start: u64,
    file_name: Seq<char>,
) -> ZipFileDataView {
    ZipFileDataView {
        system: System::Unix,
        version_made_by: DEFAULT_VERSION,
        encrypted: false,
        using_data_descriptor: false,
        compression_method: options.compression_method,
        compression_level: options.compression_level,
        last_modified_time: options.last_modified_time,
        crc32: raw.crc32,
        compressed_size: raw.compressed_size,
        uncompressed_size: raw.uncompressed_size,
        file_name,
        file_name_raw: Seq::empty(),
        extra_field: Seq::empty(),
        file_comment: Seq::empty(),
        header_start,
        central_header_start: 0,
        external_attributes: attributes_of_mode(
            match options.permissions {
                Some(mode) => mode,
                None => 0o100644,
            },
        ),
        large_file: options.large_file,
        aes_mode: None,
    }
}

impl ZipFileData {
    /// The description of an entry that is started with the given options.
    pub fn initialize(raw: ZipRawValues, options: FileOptions, header_start: u64, file_name: String)
        -> (r: ZipFileData)
        ensures
            r@ == initial_entry(raw, options, header_start, file_name@),
    {
        let permissions: u32 = match options.permissions {
            Some(mode) => mode,
            None => 0o100644,
        };
        ZipFileData {
            system: System::Unix,
            version_made_by: DEFAULT_VERSION,
            encrypted: false,
            using_data_descriptor: false,
            compression_method: options.compression_method,
            compression_level: options.compression_level,
            last_modified_time: options.last_modified_time,
            crc32: raw.crc32,
            compressed_size: raw.compressed_size,
            uncompressed_size: raw.uncompressed_size,
            file_name,
            // Never used for saving
            file_name_raw: Vec::new(),
            extra_field: Vec::new(),
            file_comment: String::new(),
            header_start,
            data_start: AtomicU64::new(0),
            central_header_start: 0,
            external_attributes: (permissions % 65536) * 65536,
            large_file: options.large_file,
            aes_mode: None,
        }
    }
}

/// The general purpose flags of an entry: bit 11 where the name is not ASCII, bit 3
/// where a data descriptor follows the payload, bit 0 where the entry is encrypted.
pub open spec fn flags_of(d: ZipFileDataView) -> u16 {
    ((if is_ascii_chars(d.file_name) {
        0int
    } else {
        2048int
    }) + (if d.using_data_descriptor {
        8int
    } else {
        0int
    }) + (if d.encrypted {
        1int
    } else {
        0int
    })) as u16
}

/// A size as a 32-bit field holds it: the size, or all bits set where it does not
/// fit.
pub open spec fn saturated(size: u64) -> u32 {
    if size > 0xFFFF_FFFF {
        0xFFFF_FFFFu32
    } else {
        size as u32
    }
}

/// The ZIP64 record of a local file header, which a large file has: both sizes in 64
/// bits.
pub open spec fn local_zip64_extra(d: ZipFileDataView) -> Seq<u8> {
    if d.large_file {
        u16_le_bytes(0x0001) + u16_le_bytes(16) + u64_le_bytes(d.uncompressed_size)
            + u64_le_bytes(d.compressed_size)
    } else {
        Seq::empty()
    }
}

/// The ZIP64 record of a central directory header: each of the two sizes and the
/// offset that does not fit in 32 bits, in 64 bits; nothing where all fit.
pub open spec fn central_zip64_extra(d: ZipFileDataView) -> Seq<u8> {
    let a = if d.uncompressed_size > 0xFFFF_FFFF {
        u64_le_bytes(d.uncompressed_size)
    } else {
        Seq::empty()
    };
    let b = if d.compressed_size > 0xFFFF_FFFF {
        u64_le_bytes(d.compressed_size)
    } else {
        Seq::empty()
    };
    let c = if d.header_start > 0xFFFF_FFFF {
        u64_le_bytes(d.header_start)
    } else {
        Seq::empty()
    };
    if a.len() + b.len() + c.len() == 0 {
        Seq::empty()
    } else {
        u16_le_bytes(0x0001) + u16_le_bytes((a.len() + b.len() + c.len()) as u16) + a + b + c
    }
}

/// The local file header that is written for an entry. A large file has both size
/// fields saturated and the sizes in a ZIP64 record.
pub open spec fn local_header_of(d: ZipFileDataView) -> LocalFileHeaderView {
    LocalFileHeaderView {
        version_needed: version_needed_of(d),
        flags: flags_of(d),
        compression_method: code_of_method(d.compression_method),
        last_mod_time: d.last_modified_time.spec_timepart() as u16,
        last_mod_date: d.last_modified_time.spec_datepart() as u16,
        crc32: d.crc32,
        compressed_size: if d.large_file {
            0xFFFF_FFFFu32
        } else {
            saturated(d.compressed_size)
        },
        uncompressed_size: if d.large_file {
            0xFFFF_FFFFu32
        } else {
            saturated(d.uncompressed_size)
        },
        file_name: encode_utf8(d.file_name),
        extra_field: local_zip64_extra(d) + d.extra_field,
    }
}

/// The central directory header that is written for an entry.
pub open spec fn central_header_of(d: ZipFileDataView) -> CentralDirectoryHeaderView {
    CentralDirectoryHeaderView {
        version_made_by: (code_of_system(d.system) as int * 256 + d.version_made_by as int) as u16,
        version_needed: version_needed_of(d),
        flags: flags_of(d),
        compression_method: code_of_method(d.compression_method),
        last_mod_time: d.last_modified_time.spec_timepart() as u16,
        last_mod_date: d.last_modified_time.spec_datepart() as u16,
        crc32: d.crc32,
        compressed_size: saturated(d.compressed_size),
        uncompressed_size: saturated(d.uncompressed_size),
        disk_number_start: 0,
        internal_attributes: 0,
        external_attributes: d.external_attributes,
        relative_offset: saturated(d.header_start),
        file_name: encode_utf8(d.file_name),
        extra_field: central_zip64_extra(d) + d.extra_field,
        file_comment: Seq::empty(),
    }
}

/// The data descriptor of an entry: signature, checksum and the two sizes, which take
/// 64 bits each for a large file.
pub open spec fn descriptor_bytes(d: ZipFileDataView) -> Seq<u8> {
    if d.large_file {
        u32_le_bytes(DATA_DESCRIPTOR_SIGNATURE) + u32_le_bytes(d.crc32) + u64_le_bytes(
            d.compressed_size,
        ) + u64_le_bytes(d.uncompressed_size)
    } else {
        u32_le_bytes(DATA_DESCRIPTOR_SIGNATURE) + u32_le_bytes(d.crc32) + u32_le_bytes(
            saturated(d.compressed_size),
        ) + u32_le_bytes(saturated(d.uncompressed_size))
    }
}

/// Computes the general purpose flags of an entry.
fn make_flags(data: &ZipFileData) -> (r: u16)
    ensures
        r == flags_of(data@),
{
    let a: u16 = if data.file_name.as_str().is_ascii() {
        0
    } else {
        2048
    };
    let b: u16 = if data.using_data_descriptor {
        8
    } else {
        0
    };
    let c: u16 = if data.encrypted {
        1
    } else {
        0
    };
    a + b + c
}

/// A size as a 32-bit field holds it.
fn saturate(size: u64) -> (r: u32)
    ensures
        r == saturated(size),
{
    if size > 0xFFFF_FFFF {
        0xFFFF_FFFF
    } else {
        size as u32
    }
}

/// Makes the local file header of an entry.
pub fn make_local_header(data: &ZipFileData) -> (r: LocalFileHeader)
    ensures
        r@ == local_header_of(data@),
{
    let mut extra_field: Vec<u8> = Vec::new();
    if data.large_file {
        // This entry in the Local header MUST include BOTH uncompressed
        // and compressed file size fields.
        write_u16_le(&mut extra_field, 0x0001);
        write_u16_le(&mut extra_field, 16);
        write_u64_le(&mut extra_field, data.uncompressed_size);
        write_u64_le(&mut extra_field, data.compressed_size);
    }
    extra_field.extend_from_slice(data.extra_field.as_slice());
    let h = LocalFileHeader {
        version_needed: data.version_needed(),
        flags: make_flags(data),
        compression_method: data.compression_method.to_u16(),
        last_mod_time: data.last_modified_time.timepart(),
        last_mod_date: data.last_modified_time.datepart(),
        crc32: data.crc32,
        compressed_size: if data.large_file {
            0xFFFF_FFFF
        } else {
            saturate(data.compressed_size)
        },
        uncompressed_size: if data.large_file {
            0xFFFF_FFFF
        } else {
            saturate(data.uncompressed_size)
        },
        file_name: data.file_name.as_str().as_bytes_vec(),
        extra_field,
    };
    assert(h@.extra_field =~= local_header_of(data@).extra_field);
    h
}

/// Makes the central directory header of an entry.
pub fn make_central_header(data: &ZipFileData) -> (r: CentralDirectoryHeader)
    ensures
        r@ == central_header_of(data@),
{
    let mut fields: Vec<u8> = Vec::new();
    if data.uncompressed_size > 0xFFFF_FFFF {
        write_u64_le(&mut fields, data.uncompressed_size);
    }
    if data.compressed_size > 0xFFFF_FFFF {
        write_u64_le(&mut fields, data.compressed_size);
    }
    if data.header_start > 0xFFFF_FFFF {
        write_u64_le(&mut fields, data.header_start);
    }
    proof {
        broadcast use crate::codec::group_read_back;

    }
    let mut extra_field: Vec<u8> = Vec::new();
    if fields.len() > 0 {
        write_u16_le(&mut extra_field, 0x0001);
        write_u16_le(&mut extra_field, fields.len() as u16);
        extra_field.extend_from_slice(fields.as_slice());
    }
    assert(extra_field@ =~= central_zip64_extra(data@));
    extra_field.extend_from_slice(data.extra_field.as_slice());
    let h = CentralDirectoryHeader {
        version_made_by: data.system.to_u8() as u16 * 256 + data.version_made_by as u16,
        version_needed: data.version_needed(),
        flags: make_flags(data),
        compression_method: data.compression_method.to_u16(),
        last_mod_time: data.last_modified_time.timepart(),
        last_mod_date: data.last_modified_time.datepart(),
        crc32: data.crc32,
        compressed_size: saturate(data.compressed_size),
        uncompressed_size: saturate(data.uncompressed_size),
        disk_number_start: 0,
        internal_attributes: 0,
        external_attributes: data.external_attributes,
        relative_offset: saturate(data.header_start),
        file_name: data.file_name.as_str().as_bytes_vec(),
        extra_field,
        file_comment: Vec::new(),
    };
    assert(h@.extra_field =~= central_header_of(data@).extra_field);
    assert(h@.file_comment =~= central_header_of(data@).file_comment);
    h
}

/// Appends the data descriptor of an entry.
pub fn write_descriptor(data: &ZipFileData, writer: &mut Vec<u8>)
    ensures
        final(writer)@ == old(writer)@ + descriptor_bytes(data@),
{
    write_u32_le(writer, DATA_DESCRIPTOR_SIGNATURE);
    write_u32_le(writer, data.crc32);
    if data.large_file {
        write_u64_le(writer, data.compressed_size);
        write_u64_le(writer, data.uncompressed_size);
    } else {
        write_u32_le(writer, saturate(data.compressed_size));
        write_u32_le(writer, saturate(data.uncompressed_size));
    }
    assert(writer@ =~= old(writer)@ + descriptor_bytes(data@));
}

/// The bytes that a `flate2::write::DeflateEncoder` at a compression level from 0 to 9
/// has written when `input` was written to it and it was finished.
pub uninterp spec fn deflated(input: Seq<u8>, level: u32) -> Seq<u8>;

/// Compresses with a `flate2::write::DeflateEncoder` over a vector: writes `input` to
/// it and finishes it. A vector takes every write.
#[verifier::external_body]
fn deflate(input: &[u8], level: u32) -> (r: Vec<u8>)
    requires
        level <= 9,
    ensures
        r@ == deflated(input@, level),
{
    let mut encoder = flate2::write::DeflateEncoder::new(
        Vec::new(),
        flate2::Compression::new(level),
    );
    let _ = encoder.write_all(input);
    encoder.finish().unwrap_or_default()
}

/// The bytes that a `bzip2::write::BzEncoder` at a compression level from 1 to 9 has
/// written when `input` was written to it and it was finished.
pub uninterp spec fn bzipped(input: Seq<u8>, level: u32) -> Seq<u8>;

/// What `zstd::stream::encode_all` gives for `input` at a compression level: the
/// bytes of its result, or nothing where it fails.
pub uninterp spec fn zstd_encoded(input: Seq<u8>, level: i32) -> Option<Seq<u8>>;

/// Compresses with a `bzip2::write::BzEncoder` over a vector: writes `input` to it
/// and finishes it. A vector takes every write; `bzip2::Compression::new` panics for
/// a level outside 1 to 9.
#[verifier::external_body]
fn bzip(input: &[u8], level: u32) -> (r: Vec<u8>)
    requires
        1 <= level <= 9,
    ensures
        r@ == bzipped(input@, level),
{
    let mut encoder = bzip2::write::BzEncoder::new(Vec::new(), bzip2::Compression::new(level));
    let _ = encoder.write_all(input);
    encoder.finish().unwrap_or_default()
}

/// Compresses with `zstd::stream::encode_all`.
#[verifier::external_body]
fn zstd_encode(input: &[u8], level: i32) -> (r: Result<Vec<u8>, std::io::Error>)
    ensures
        r is Ok ==> zstd_encoded(input@, level) == Some(r->Ok_0@),
        r is Err ==> zstd_encoded(input@, level) is None,
{
    zstd::stream::encode_all(input, level)
}

/// The lowest and the highest compression level that an entry can be written with,
/// and the one that is taken where none is given: for Deflate 0 to 9 and 6, for bzip2
/// 1 to 9 and 6, for Zstandard -7 to 22 and 3. A stored entry takes any level.
pub open spec fn level_bounds(method: CompressionMethod) -> (int, int, int) {
    match method {
        CompressionMethod::Deflated => (0, 9, 6),
        CompressionMethod::Bzip2 => (1, 9, 6),
        CompressionMethod::Zstd => (-7, 22, 3),
        _ => (i32::MIN as int, i32::MAX as int, 0),
    }
}

/// The level that an entry is compressed at: the one given where it is in bounds,
/// else the one that is taken where none is given.
pub open spec fn effective_level(method: CompressionMethod, level: Option<i32>) -> int {
    let (low, high, default) = level_bounds(method);
    match level {
        Some(l) => if low <= l <= high {
            l as int
        } else {
            default
        },
        None => default,
    }
}

/// The payload that plain text is stored as, or nothing where the encoder fails.
pub open spec fn encoded(method: CompressionMethod, level: Option<i32>, plain: Seq<u8>) -> Option<
    Seq<u8>,
> {
    match method {
        CompressionMethod::Deflated => Some(
            deflated(plain, effective_level(method, level) as u32),
        ),
        CompressionMethod::Bzip2 => Some(bzipped(plain, effective_level(method, level) as u32)),
        CompressionMethod::Zstd => zstd_encoded(plain, effective_level(method, level) as i32),
        _ => Some(plain),
    }
}

/// Why an entry cannot be written with the given method and level, if it cannot:
/// entries are written stored, or with Deflate, bzip2 or Zstandard at a level in the
/// bounds of the method.
pub open spec fn not_writable(method: CompressionMethod, level: Option<i32>) -> Option<Fault> {
    if !crate::compression::method_supported(method) {
        Some(Fault::UnsupportedArchive("Unsupported compression"@))
    } else if level is Some && !(level_bounds(method).0 <= level->0 <= level_bounds(method).1) {
        Some(Fault::UnsupportedArchive("Unsupported compression level"@))
    } else {
        None
    }
}

/// The state of a writer.
pub struct WriterView {
    /// The bytes of the entries that are complete.
    pub bytes: Seq<u8>,
    /// The descriptions of the entries that are complete, in the order they were
    /// started in.
    pub files: Seq<ZipFileDataView>,
    /// The entry that is open, as it was started, with the plain text written to it.
    pub open: Option<(ZipFileDataView, Seq<u8>)>,
    /// The comment of the archive.
    pub comment: Seq<u8>,
    /// True when nothing that was written is changed later: sizes and checksum
    /// follow the payload.
    pub streaming: bool,
    /// True when the writer takes nothing more.
    pub closed: bool,
}

/// The description of an entry when it is complete: checksum and sizes are those of
/// what was written to it.
pub open spec fn closed_entry(d: ZipFileDataView, plain: Seq<u8>) -> ZipFileDataView {
    ZipFileDataView {
        crc32: crc32(plain),
        uncompressed_size: plain.len() as u64,
        compressed_size: encoded(d.compression_method, d.compression_level, plain)->0.len() as u64,
        ..d
    }
}

/// The bytes of an entry: the local file header and the payload. The header holds
/// checksum and sizes, except in a streaming writer, where it holds zeros for them and
/// a data descriptor follows the payload.
pub open spec fn written_entry(d: ZipFileDataView, plain: Seq<u8>, streaming: bool) -> Seq<u8> {
    let payload = encoded(d.compression_method, d.compression_level, plain)->0;
    if streaming {
        lfh_bytes(local_header_of(d)) + payload + descriptor_bytes(closed_entry(d, plain))
    } else {
        lfh_bytes(local_header_of(closed_entry(d, plain))) + payload
    }
}

/// The writer after the open entry, if there is one, was completed. An entry that was
/// not started as a large file must not take more than 4 GiB - 1 in the archive.
pub open spec fn settle(v: WriterView) -> Result<WriterView, Fault> {
    match v.open {
        None => Ok(v),
        Some((d, plain)) => if encoded(d.compression_method, d.compression_level, plain)
            is None || (!d.large_file && encoded(
            d.compression_method,
            d.compression_level,
            plain,
        )->0.len() > 0xFFFF_FFFF) {
            Err(Fault::Io)
        } else {
            Ok(
                WriterView {
                    bytes: v.bytes + written_entry(d, plain, v.streaming),
                    files: v.files.push(closed_entry(d, plain)),
                    open: None,
                    ..v
                },
            )
        },
    }
}

/// The writer after an entry was started.
pub open spec fn start(v: WriterView, name: Seq<char>, options: FileOptions) -> Result<
    WriterView,
    Fault,
> {
    if v.closed {
        Err(Fault::Io)
    } else {
        match settle(v) {
            Err(f) => Err(f),
            Ok(s) => if encode_utf8(name).len() > 0xFFFF {
                Err(Fault::InvalidArchive("File name too long"@))
            } else if not_writable(options.compression_method, options.compression_level)
                is Some {
                Err(not_writable(options.compression_method, options.compression_level)->0)
            } else {
                Ok(
                    WriterView {
                        open: Some(
                            (
                                ZipFileDataView {
                                    using_data_descriptor: s.streaming,
                                    ..initial_entry(
                                        ZipRawValues {
                                            crc32: 0,
                                            compressed_size: 0,
                                            uncompressed_size: 0,
                                        },
                                        options,
                                        s.bytes.len() as u64,
                                        name,
                                    )
                                },
                                Seq::empty(),
                            ),
                        ),
                        ..s
                    },
                )
            },
        }
    }
}

/// The central directory: the headers of the entries, one behind the other.
pub open spec fn central_directory(files: Seq<ZipFileDataView>) -> Seq<u8>
    decreases files.len(),
{
    if files.len() == 0 {
        Seq::empty()
    } else {
        central_directory(files.drop_last()) + cdh_bytes(central_header_of(files.last()))
    }
}

/// True when one of the entries is a large file.
pub open spec fn any_large(files: Seq<ZipFileDataView>) -> bool {
    exists|i: int| 0 <= i < files.len() && (#[trigger] files[i]).large_file
}

/// True when the archive needs the ZIP64 record and its locator: an entry is a large
/// file, there are more than 65535 entries, or the central directory starts or ends
/// beyond what 32 bits hold.
pub open spec fn needs_zip64_end(count: int, large: bool, central_start: int, central_size: int)
    -> bool {
    large || count > 0xFFFF || central_start > 0xFFFF_FFFF || central_size > 0xFFFF_FFFF
}

/// The end of central directory record of an archive of `count` entries, in which a
/// value that does not fit its field has all bits set.
pub open spec fn end_record(count: int, central_start: u64, central_size: u64, comment: Seq<u8>)
    -> CentralDirectoryEndView {
    let shown = if count > 0xFFFF {
        0xFFFFu16
    } else {
        count as u16
    };
    CentralDirectoryEndView {
        disk_number: 0,
        disk_with_central_directory: 0,
        number_of_files_on_this_disk: shown,
        number_of_files: shown,
        central_directory_size: saturated(central_size),
        central_directory_offset: saturated(central_start),
        zip_file_comment: comment,
    }
}

/// The ZIP64 record and its locator of an archive of `count` entries.
pub open spec fn zip64_end_records(count: int, central_start: u64, central_size: u64) -> Seq<u8> {
    zip64_eocd_bytes(
        Zip64CentralDirectoryEnd {
            version_made_by: DEFAULT_VERSION as u16,
            version_needed_to_extract: DEFAULT_VERSION as u16,
            disk_number: 0,
            disk_with_central_directory: 0,
            number_of_files_on_this_disk: count as u64,
            number_of_files: count as u64,
            central_directory_size: central_size,
            central_directory_offset: central_start,
        },
    ) + locator_bytes(
        Zip64CentralDirectoryEndLocator {
            disk_with_central_directory: 0,
            end_of_central_directory_offset: (central_start + central_size) as u64,
            number_of_disks: 1,
        },
    )
}

/// The records that end an archive: the ZIP64 record and its locator where needed,
/// then the end of central directory record.
pub open spec fn end_records(
    count: int,
    large: bool,
    central_start: u64,
    central_size: u64,
    comment: Seq<u8>,
) -> Seq<u8> {
    if needs_zip64_end(count, large, central_start as int, central_size as int) {
        zip64_end_records(count, central_start, central_size) + eocd_bytes(
            end_record(count, central_start, central_size, comment),
        )
    } else {
        eocd_bytes(end_record(count, central_start, central_size, comment))
    }
}

/// The archive that a writer with no open entry gives when it is finished.
pub open spec fn finished(v: WriterView) -> Seq<u8> {
    let directory = central_directory(v.files);
    v.bytes + directory + end_records(
        v.files.len() as int,
        any_large(v.files),
        v.bytes.len() as u64,
        directory.len() as u64,
        v.comment,
    )
}

/// The level that an entry is compressed at.
fn pick_level(level: Option<i32>, low: i32, high: i32, default: i32) -> (r: i32)
    requires
        low <= default <= high,
    ensures
        low <= r <= high,
        r == (match level {
            Some(l) => if low <= l <= high {
                l
            } else {
                default
            },
            None => default,
        }),
{
    match level {
        Some(l) => if low <= l && l <= high {
            l
        } else {
            default
        },
        None => default,
    }
}

/// Encodes plain text as the payload of an entry.
fn encode(method: CompressionMethod, level: Option<i32>, plain: &[u8]) -> (r: ZipResult<Vec<u8>>)
    ensures
        match encoded(method, level, plain@) {
            Some(payload) => r is Ok && r->Ok_0@ == payload,
            None => r is Err && r->Err_0@ == Fault::Io,
        },
{
    match method {
        CompressionMethod::Deflated => Ok(deflate(plain, pick_level(level, 0, 9, 6) as u32)),
        CompressionMethod::Bzip2 => Ok(bzip(plain, pick_level(level, 1, 9, 6) as u32)),
        CompressionMethod::Zstd => match zstd_encode(plain, pick_level(level, -7, 22, 3)) {
            Ok(payload) => Ok(payload),
            Err(e) => Err(ZipError::Io(e)),
        },
        _ => {
            let copy = crate::codec::copy_range(plain, 0, plain.len());
            assert(copy@ =~= plain@);
            Ok(copy)
        },
    }
}

/// Completes an entry: fills in checksum and sizes, and appends header and payload.
#[verifier::rlimit(60)]
fn close_entry(data: ZipFileData, plain: &[u8], payload: &[u8], streaming: bool, out: &mut Vec<u8>)
    -> (r: ZipFileData)
    requires
        encoded(data@.compression_method, data@.compression_level, plain@) == Some(payload@),
    ensures
        r@ == closed_entry(data@, plain@),
        final(out)@ == old(out)@ + written_entry(data@, plain@, streaming),
{
    let mut data = data;
    let ghost provisional = data@;
    if streaming {
        let header = make_local_header(&data);
        let _ = header.write(out);
        out.extend_from_slice(payload);
        data.crc32 = crate::crc32::checksum(plain);
        data.uncompressed_size = plain.len() as u64;
        data.compressed_size = payload.len() as u64;
        write_descriptor(&data, out);
        assert(data@ == closed_entry(provisional, plain@));
        assert(out@ =~= old(out)@ + written_entry(provisional, plain@, streaming));
    } else {
        data.crc32 = crate::crc32::checksum(plain);
        data.uncompressed_size = plain.len() as u64;
        data.compressed_size = payload.len() as u64;
        assert(data@ == closed_entry(provisional, plain@));
        let header = make_local_header(&data);
        let _ = header.write(out);
        out.extend_from_slice(payload);
        assert(out@ =~= old(out)@ + written_entry(provisional, plain@, streaming));
    }
    data
}

/// Says why an entry cannot be written with the given method and level, if it
/// cannot.
fn check_writable(method: CompressionMethod, level: Option<i32>) -> (r: Option<ZipError>)
    ensures
        match r {
            None => not_writable(method, level) is None,
            Some(e) => not_writable(method, level) == Some(e@),
        },
{
    let (low, high): (i32, i32) = match method {
        CompressionMethod::Stored => (i32::MIN, i32::MAX),
        CompressionMethod::Deflated => (0, 9),
        CompressionMethod::Bzip2 => (1, 9),
        CompressionMethod::Zstd => (-7, 22),
        _ => {
            return Some(ZipError::UnsupportedArchive("Unsupported compression"));
        },
    };
    match level {
        Some(l) => {
            if l < low || l > high {
                Some(ZipError::UnsupportedArchive("Unsupported compression level"))
            } else {
                None
            }
        },
        None => None,
    }
}

/// Appends the records that end an archive.
fn write_end_records(
    out: &mut Vec<u8>,
    count: usize,
    large: bool,
    central_start: u64,
    central_size: u64,
    comment: Vec<u8>,
)
    requires
        central_start + central_size <= u64::MAX,
    ensures
        final(out)@ == old(out)@ + end_records(
            count as int,
            large,
            central_start,
            central_size,
            comment@,
        ),
{
    if large || count > 0xFFFF || central_start > 0xFFFF_FFFF || central_size > 0xFFFF_FFFF {
        let zip64_footer = Zip64CentralDirectoryEnd {
            version_made_by: DEFAULT_VERSION as u16,
            version_needed_to_extract: DEFAULT_VERSION as u16,
            disk_number: 0,
            disk_with_central_directory: 0,
            number_of_files_on_this_disk: count as u64,
            number_of_files: count as u64,
            central_directory_size: central_size,
            central_directory_offset: central_start,
        };
        let _ = zip64_footer.write(out);
        let zip64_locator = Zip64CentralDirectoryEndLocator {
            disk_with_central_directory: 0,
            end_of_central_directory_offset: central_start + central_size,
            number_of_disks: 1,
        };
        let _ = zip64_locator.write(out);
    }
    let number_of_files: u16 = if count > 0xFFFF {
        0xFFFF
    } else {
        count as u16
    };
    let footer = CentralDirectoryEnd {
        disk_number: 0,
        disk_with_central_directory: 0,
        zip_file_comment: comment,
        number_of_files_on_this_disk: number_of_files,
        number_of_files,
        central_directory_size: saturate(central_size),
        central_directory_offset: saturate(central_start),
    };
    let _ = footer.write(out);
    assert(footer@ == end_record(count as int, central_start, central_size, comment@));
    assert(out@ =~= old(out)@ + end_records(
        count as int,
        large,
        central_start,
        central_size,
        comment@,
    ));
}

/// ZIP archive generator
///
/// Handles the bookkeeping involved in building an archive, and provides an API to
/// edit its contents. The archive is built in memory.
pub struct ZipWriter {
    inner: Vec<u8>,
    files: Vec<ZipFileData>,
    current: Option<ZipFileData>,
    pending: Vec<u8>,
    comment: Vec<u8>,
    streaming: bool,
    closed: bool,
}

impl ZipWriter {
    /// The state of the writer.
    pub closed spec fn view(&self) -> WriterView {
        WriterView {
            bytes: self.inner@,
            files: crate::read::entry_views(self.files@),
            open: match self.current {
                Some(d) => Some((d@, self.pending@)),
                None => None,
            },
            comment: self.comment@,
            streaming: self.streaming,
            closed: self.closed,
        }
    }

    /// Initializes the archive.
    ///
    /// Before writing to this object, the `start_file` function should be called.
    pub fn new() -> (r: ZipWriter)
        ensures
            r@ == (WriterView {
                bytes: Seq::empty(),
                files: Seq::empty(),
                open: None,
                comment: Seq::empty(),
                streaming: false,
                closed: false,
            }),
    {
        let r = ZipWriter {
            inner: Vec::new(),
            files: Vec::new(),
            current: None,
            pending: Vec::new(),
            comment: Vec::new(),
            streaming: false,
            closed: false,
        };
        assert(r@.files =~= Seq::empty());
        r
    }

    /// Initializes an archive in which nothing that was written is changed later:
    /// the sizes and the checksum of each entry follow its payload.
    pub fn new_streaming() -> (r: ZipWriter)
        ensures
            r@ == (WriterView {
                bytes: Seq::empty(),
                files: Seq::empty(),
                open: None,
                comment: Seq::empty(),
                streaming: true,
                closed: false,
            }),
    {
        let r = ZipWriter {
            inner: Vec::new(),
            files: Vec::new(),
            current: None,
            pending: Vec::new(),
            comment: Vec::new(),
            streaming: true,
            closed: false,
        };
        assert(r@.files =~= Seq::empty());
        r
    }

    /// Set ZIP archive comment.
    pub fn set_raw_comment(&mut self, comment: Vec<u8>)
        ensures
            final(self)@ == (WriterView { comment: comment@, ..old(self)@ }),
    {
        self.comment = comment;
    }

    /// Completes the open entry, if there is one.
    fn finish_file(&mut self) -> (r: ZipResult<()>)
        ensures
            match settle(old(self)@) {
                Ok(v) => r is Ok && final(self)@ == v,
                Err(f) => r is Err && r->Err_0@ == f && final(self)@.closed,
            },
    {
        let data = match self.current.take() {
            None => {
                return Ok(());
            },
            Some(data) => data,
        };
        let payload = match encode(
            data.compression_method,
            data.compression_level,
            self.pending.as_slice(),
        ) {
            Err(e) => {
                self.closed = true;
                return Err(e);
            },
            Ok(payload) => payload,
        };
        if !data.large_file && payload.len() as u64 > 0xFFFF_FFFF {
            self.closed = true;
            return Err(other_error("Large file option has not been set"));
        }
        let closed = close_entry(
            data,
            self.pending.as_slice(),
            payload.as_slice(),
            self.streaming,
            &mut self.inner,
        );
        let ghost files_before = self.files@;
        self.files.push(closed);
        assert(crate::read::entry_views(self.files@) =~= crate::read::entry_views(
            files_before,
        ).push(closed@));
        Ok(())
    }

    /// Create a file in the archive and start writing its contents.
    ///
    /// An entry that is open is completed first. The data should be written with
    /// `write_all`.
    pub fn start_file(&mut self, name: &str, options: FileOptions) -> (r: ZipResult<()>)
        ensures
            match start(old(self)@, name@, options) {
                Ok(v) => r is Ok && final(self)@ == v,
                Err(f) => r is Err && r->Err_0@ == f,
            },
            r is Err ==> (match settle(old(self)@) {
                Ok(v) => final(self)@ == (if old(self)@.closed {
                    old(self)@
                } else {
                    v
                }),
                Err(_) => final(self)@.closed,
            }),
    {
        if self.closed {
            return Err(other_error("ZipWriter was already closed"));
        }
        match self.finish_file() {
            Err(e) => {
                return Err(e);
            },
            Ok(_) => {},
        }
        if name.as_bytes().len() > 0xFFFF {
            return Err(ZipError::InvalidArchive("File name too long"));
        }
        match check_writable(options.compression_method, options.compression_level) {
            Some(e) => {
                return Err(e);
            },
            None => {},
        }
        let header_start: u64 = self.inner.len() as u64;
        let raw = ZipRawValues { crc32: 0, compressed_size: 0, uncompressed_size: 0 };
        let mut data = ZipFileData::initialize(raw, options, header_start, name.to_owned());
        data.using_data_descriptor = self.streaming;
        self.pending = Vec::new();
        self.current = Some(data);
        assert(self.pending@ =~= Seq::<u8>::empty());
        Ok(())
    }

    /// Says whether the open entry was started as a large file.
    fn open_is_large(&self) -> (r: Option<bool>)
        ensures
            match self@.open {
                None => r is None,
                Some(open) => r == Some(open.0.large_file),
            },
    {
        match &self.current {
            None => None,
            Some(data) => Some(data.large_file),
        }
    }

    /// Writes to the open entry.
    ///
    /// An entry that was not started as a large file takes no more than 4 GiB - 1:
    /// the write that would go beyond fails, and the writer takes nothing more after
    /// it.
    pub fn write_all(&mut self, buf: &[u8]) -> (r: ZipResult<()>)
        ensures
            match written(old(self)@, buf@) {
                Ok(v) => r is Ok && final(self)@ == v,
                Err(f) => r is Err && r->Err_0@ == f,
            },
            r is Err ==> final(self)@ == (WriterView {
                closed: old(self)@.closed || old(self)@.open is Some,
                ..old(self)@
            }),
    {
        if self.closed {
            return Err(other_error("ZipWriter was already closed"));
        }
        let large_file = match self.open_is_large() {
            None => {
                return Err(other_error("No file has been started"));
            },
            Some(large_file) => large_file,
        };
        if !large_file && (self.pending.len() as u64 > 0xFFFF_FFFF || buf.len() as u64
            > 0xFFFF_FFFF - self.pending.len() as u64) {
            self.closed = true;
            return Err(other_error("Large file option has not been set"));
        }
        let ghost was = self@.open->0;
        self.pending.extend_from_slice(buf);
        assert(self@.open == Some((was.0, was.1 + buf@)));
        Ok(())
    }

    /// Add a directory entry.
    ///
    /// As directories have no content, you must not call `write_all` before
    /// adding a new file.
    ///
    /// The entry is started and completed at once, stored and empty. Where it cannot
    /// be started, the writer is left as `start_file` leaves it.
    pub fn add_directory(&mut self, name: &str, options: FileOptions) -> (r: ZipResult<()>)
        ensures
            match start(old(self)@, directory_name(name@), directory_options(options)) {
                Err(f) => r is Err && r->Err_0@ == f,
                Ok(v) => settle(v) is Ok && r is Ok && final(self)@ == settle(v)->Ok_0,
            },
            r is Err ==> (match settle(old(self)@) {
                Ok(v) => final(self)@ == (if old(self)@.closed {
                    old(self)@
                } else {
                    v
                }),
                Err(_) => final(self)@.closed,
            }),
    {
        let mode: u32 = match options.permissions {
            Some(mode) => mode,
            None => 0o755,
        };
        let options = FileOptions {
            permissions: Some(mode | 0o40000),
            compression_method: CompressionMethod::Stored,
            ..options
        };
        // Append a slash to the filename if it does not end with it.
        let n = name.unicode_len();
        let mut name_with_slash: String = name.to_owned();
        let slashed = n > 0 && (name.get_char(n - 1) == '/' || name.get_char(n - 1) == '\\');
        if !slashed {
            name_with_slash.push('/');
        }
        assert(name_with_slash@ =~= directory_name(name@));
        match self.start_file(name_with_slash.as_str(), options) {
            Err(e) => {
                return Err(e);
            },
            Ok(_) => {},
        }
        self.finish_file()
    }

    /// Finish the last file and write all other zip-structures
    ///
    /// This will return the archive. The writer takes nothing more after it.
    pub fn finish(&mut self) -> (r: ZipResult<Vec<u8>>)
        ensures
            final(self)@.closed,
            old(self)@.closed ==> r is Err && r->Err_0@ == Fault::Io,
            !old(self)@.closed ==> (match settle(old(self)@) {
                Err(f) => r is Err && r->Err_0@ == f,
                Ok(v) => r is Ok && r->Ok_0@ == finished(v),
            }),
    {
        if self.closed {
            return Err(other_error("ZipWriter was already closed"));
        }
        match self.finish_file() {
            Err(e) => {
                return Err(e);
            },
            Ok(_) => {},
        }
        self.closed = true;
        let ghost v = self@;
        let ghost views = v.files;
        let central_start: u64 = self.inner.len() as u64;
        let total: usize = self.files.len();
        let mut large: bool = false;
        let mut i: usize = 0;
        while i < total
            invariant
                total == self.files@.len(),
                views == crate::read::entry_views(self.files@),
                views.len() == total,
                i <= total,
                self.inner@ == v.bytes + central_directory(views.take(i as int)),
                large == any_large(views.take(i as int)),
                self@.closed,
                self.comment@ == v.comment,
            decreases total - i,
        {
            let header = make_central_header(&self.files[i]);
            let ghost done = views.take(i as int);
            let _ = header.write(&mut self.inner);
            if self.files[i].large_file {
                large = true;
            }
            proof {
                let next = views.take(i + 1);
                assert(next.drop_last() =~= done);
                assert(next.last() == views[i as int]);
                assert(self.inner@ =~= v.bytes + central_directory(next));
                if any_large(done) {
                    let k = choose|k: int| 0 <= k < done.len() && (#[trigger] done[k]).large_file;
                    assert(next[k].large_file);
                }
                if any_large(next) && !self.files@[i as int]@.large_file {
                    let k = choose|k: int| 0 <= k < next.len() && (#[trigger] next[k]).large_file;
                    assert(done[k].large_file);
                }
                if self.files@[i as int]@.large_file {
                    assert(next[i as int].large_file);
                }
            }
            i = i + 1;
        }
        proof {
            assert(views.take(i as int) =~= views);
        }
        let central_size: u64 = self.inner.len() as u64 - central_start;
        let ghost directory = central_directory(views);
        let ghost body = self.inner@;
        assert(body == v.bytes + directory);
        assert(central_start == v.bytes.len());
        assert(central_size == directory.len());
        let mut comment: Vec<u8> = Vec::new();
        core::mem::swap(&mut comment, &mut self.comment);
        assert(comment@ == v.comment);
        write_end_records(&mut self.inner, total, large, central_start, central_size, comment);
        assert(self.inner@ == body + end_records(
            views.len() as int,
            any_large(views),
            central_start,
            central_size,
            v.comment,
        ));
        let mut archive: Vec<u8> = Vec::new();
        core::mem::swap(&mut archive, &mut self.inner);
        assert(archive@ =~= finished(v));
        Ok(archive)
    }

}

/// The writer after bytes were written to the open entry.
pub open spec fn written(v: WriterView, buf: Seq<u8>) -> Result<WriterView, Fault> {
    if v.closed {
        Err(Fault::Io)
    } else {
        match v.open {
            None => Err(Fault::Io),
            Some((d, plain)) => if !d.large_file && plain.len() + buf.len() > 0xFFFF_FFFF {
                Err(Fault::Io)
            } else {
                Ok(WriterView { open: Some((d, plain + buf)), ..v })
            },
        }
    }
}

/// The name that a directory is entered under: the name given, with a slash behind it
/// unless it ends with a slash or a backslash.
pub open spec fn directory_name(name: Seq<char>) -> Seq<char> {
    if name.len() > 0 && (name.last() == '/' || name.last() == '\\') {
        name
    } else {
        name.push('/')
    }
}

/// The options that a directory is entered with: stored, with the mode given or 755,
/// marked as a directory.
pub open spec fn directory_options(options: FileOptions) -> FileOptions {
    FileOptions {
        permissions: Some(
            (match options.permissions {
                Some(mode) => mode,
                None => 0o755,
            }) | 0o40000,
        ),
        compression_method: CompressionMethod::Stored,
        ..options
    }
}

/// What the reader makes of the description of an entry that was written without
/// extra field and comment: the description itself, with the name's bytes as its raw
/// name, the ZIP64 record of the central directory as its extra field, no compression
/// level, and the mark of a large file where a size or the offset needs 64 bits.
pub open spec fn as_read_back(d: ZipFileDataView, archive_offset: u64, central_header_start: u64)
    -> ZipFileDataView {
    ZipFileDataView {
        file_name_raw: encode_utf8(d.file_name),
        extra_field: central_zip64_extra(d),
        compression_level: None,
        large_file: d.uncompressed_size > 0xFFFF_FFFF || d.compressed_size > 0xFFFF_FFFF
            || d.header_start > 0xFFFF_FFFF,
        header_start: (d.header_start + archive_offset) as u64,
        central_header_start,
        ..d
    }
}

/// True for the descriptions of entries that the reader gets back from the central
/// directory as they were written: entries that were written by a known system with
/// a method that is decoded and a time that a packed pair holds, without
/// extra field, comment and encryption, and with no size or offset of exactly
/// 0xFFFFFFFF, which a 32-bit field cannot tell from "see the ZIP64 record".
pub open spec fn reads_back(d: ZipFileDataView) -> bool {
    &&& d.extra_field.len() == 0
    &&& d.file_comment.len() == 0
    &&& d.system != System::Unknown
    &&& crate::compression::method_supported(d.compression_method)
    &&& d.aes_mode is None
    &&& crate::types::is_packable(d.last_modified_time)
    &&& d.uncompressed_size != 0xFFFF_FFFF
    &&& d.compressed_size != 0xFFFF_FFFF
    &&& d.header_start != 0xFFFF_FFFF
}

/// The walk over the ZIP64 record that the writer puts in a central directory header
/// restores the sizes and the offset that its 32-bit fields could not hold.
proof fn lemma_walk_of_written_extra(d: ZipFileDataView)
    requires
        d.uncompressed_size != 0xFFFF_FFFF,
        d.compressed_size != 0xFFFF_FFFF,
        d.header_start != 0xFFFF_FFFF,
    ensures
        crate::extra::walk_extra(
            central_zip64_extra(d),
            0,
            crate::read::initial_extra_fields(
                saturated(d.uncompressed_size),
                saturated(d.compressed_size),
                saturated(d.header_start) as u64,
                code_of_method(d.compression_method),
            ),
        ) == (crate::extra::ExtraWalk {
            fields: crate::extra::ExtraFields {
                uncompressed_size: d.uncompressed_size,
                compressed_size: d.compressed_size,
                header_start: d.header_start,
                large_file: d.uncompressed_size > 0xFFFF_FFFF || d.compressed_size
                    > 0xFFFF_FFFF || d.header_start > 0xFFFF_FFFF,
                aes_mode: None,
                compression_method: crate::compression::method_of_code(
                    code_of_method(d.compression_method),
                ),
            },
            fault: None,
        }),
{
    let extra = central_zip64_extra(d);
    let init = crate::read::initial_extra_fields(
        saturated(d.uncompressed_size),
        saturated(d.compressed_size),
        saturated(d.header_start) as u64,
        code_of_method(d.compression_method),
    );
    crate::codec::lemma_u64_encoding_len(d.uncompressed_size);
    crate::codec::lemma_u64_encoding_len(d.compressed_size);
    crate::codec::lemma_u64_encoding_len(d.header_start);
    if d.uncompressed_size > 0xFFFF_FFFF || d.compressed_size > 0xFFFF_FFFF || d.header_start
        > 0xFFFF_FFFF {
        crate::extra::lemma_zip64_record_replaces_saturated_fields(
            init,
            d.uncompressed_size,
            d.compressed_size,
            d.header_start,
        );
        assert(extra =~= crate::extra::zip64_record_for(
            init,
            d.uncompressed_size,
            d.compressed_size,
            d.header_start,
        ));
    } else {
        assert(extra.len() == 0);
    }
}

/// The reader gets the entries of a writer back: what it makes of the central
/// directory header that is written for an entry is the entry as it was written. This
/// holds for sizes beyond 4 GiB too, which go through the ZIP64 record, and for names
/// that are not ASCII, which are written as UTF-8 and marked as such.
pub proof fn lemma_reader_recovers_written_entry(
    d: ZipFileDataView,
    archive_offset: u64,
    central_header_start: u64,
)
    requires
        reads_back(d),
        d.header_start + archive_offset <= u64::MAX,
    ensures
        crate::read::entry_of_header(central_header_of(d), archive_offset, central_header_start)
            == Ok::<ZipFileDataView, Fault>(as_read_back(d, archive_offset, central_header_start)),
{
    lemma_walk_of_written_extra(d);
    crate::types::lemma_unpack_of_pack(d.last_modified_time);
    let h = central_header_of(d);
    if is_ascii_chars(d.file_name) {
        crate::cp437::lemma_cp437_of_ascii(d.file_name);
        assert(crate::cp437::cp437_string(h.file_comment) =~= d.file_comment);
    } else {
        vstd::utf8::encode_utf8_valid_utf8(d.file_name);
        vstd::utf8::encode_utf8_decode_utf8(d.file_name);
        assert(vstd::utf8::valid_utf8(h.file_comment));
        assert(vstd::utf8::decode_utf8(h.file_comment) =~= d.file_comment);
    }
    assert(h.extra_field =~= central_zip64_extra(d));
    assert(h.uncompressed_size == saturated(d.uncompressed_size));
    assert(h.relative_offset as u64 == saturated(d.header_start) as u64);
}

/// A write that would take an entry beyond 4 GiB - 1 without the large file option
/// fails, and the writer takes nothing after it: neither a write nor a new entry.
pub proof fn lemma_oversized_write_closes_the_writer(
    v: WriterView,
    d: ZipFileDataView,
    plain: Seq<u8>,
    buf: Seq<u8>,
    name: Seq<char>,
    options: FileOptions,
)
    requires
        !v.closed,
        v.open == Some((d, plain)),
        !d.large_file,
        plain.len() + buf.len() > 0xFFFF_FFFF,
    ensures
        written(v, buf) == Err::<WriterView, Fault>(Fault::Io),
        start(WriterView { closed: true, ..v }, name, options) == Err::<WriterView, Fault>(
            Fault::Io,
        ),
        written(WriterView { closed: true, ..v }, buf) == Err::<WriterView, Fault>(Fault::Io),
{
}

/// An entry that was started as a large file is completed whatever its size, and its
/// description then holds the number of bytes that were written to it.
pub proof fn lemma_large_file_is_completed(v: WriterView, d: ZipFileDataView, plain: Seq<u8>)
    requires
        v.open == Some((d, plain)),
        d.large_file,
        encoded(d.compression_method, d.compression_level, plain) is Some,
        plain.len() <= u64::MAX,
    ensures
        settle(v) is Ok,
        settle(v)->Ok_0.files.last().uncompressed_size == plain.len(),
        settle(v)->Ok_0.files.last().large_file,
{
}

} // verus!
