//! The two records that describe one entry: the central directory header and the
//! local file header.

use vstd::prelude::*;
use crate::codec::{
    copy_range, group_read_back, lemma_u16_encoding_at, lemma_u32_encoding_at, read_u16_le,
    read_u32_le, u16_at, u16_le_bytes, u32_at, u32_le_bytes, write_u16_le, write_u32_le,
};
use crate::records::{CENTRAL_DIRECTORY_HEADER_SIGNATURE, LOCAL_FILE_HEADER_SIGNATURE};
use crate::result::{truncated, Fault, ZipError, ZipResult};

verus! {

/// A central directory header as it stands in the archive, field by field.
#[derive(Debug, Clone)]
pub struct CentralDirectoryHeader {
    pub version_made_by: u16,
    pub version_needed: u16,
    pub flags: u16,
    pub compression_method: u16,
    pub last_mod_time: u16,
    pub last_mod_date: u16,
    pub crc32: u32,
    pub compressed_size: u32,
    pub uncompressed_size: u32,
    pub disk_number_start: u16,
    pub internal_attributes: u16,
    pub external_attributes: u32,
    pub relative_offset: u32,
    pub file_name: Vec<u8>,
    pub extra_field: Vec<u8>,
    pub file_comment: Vec<u8>,
}

/// The content of a central directory header.
pub struct CentralDirectoryHeaderView {
    pub version_made_by: u16,
    pub version_needed: u16,
    pub flags: u16,
    pub compression_method: u16,
    pub last_mod_time: u16,
    pub last_mod_date: u16,
    pub crc32: u32,
    pub compressed_size: u32,
    pub uncompressed_size: u32,
    pub disk_number_start: u16,
    pub internal_attributes: u16,
    pub external_attributes: u32,
    pub relative_offset: u32,
    pub file_name: Seq<u8>,
    pub extra_field: Seq<u8>,
    pub file_comment: Seq<u8>,
}

impl View for CentralDirectoryHeader {
    type V = CentralDirectoryHeaderView;

    open spec fn view(&self) -> CentralDirectoryHeaderView {
        CentralDirectoryHeaderView {
            version_made_by: self.version_made_by,
            version_needed: self.version_needed,
            flags: self.flags,
            compression_method: self.compression_method,
            last_mod_time: self.last_mod_time,
            last_mod_date: self.last_mod_date,
            crc32: self.crc32,
            compressed_size: self.compressed_size,
            uncompressed_size: self.uncompressed_size,
            disk_number_start: self.disk_number_start,
            internal_attributes: self.internal_attributes,
            external_attributes: self.external_attributes,
            relative_offset: self.relative_offset,
            file_name: self.file_name@,
            extra_field: self.extra_field@,
            file_comment: self.file_comment@,
        }
    }
}

impl CentralDirectoryHeaderView {
    /// The number of bytes that the header takes in the archive.
    pub open spec fn len(self) -> int {
        46 + self.file_name.len() as int + self.extra_field.len() as int
            + self.file_comment.len() as int
    }

    /// True when the three variable parts fit their 16-bit length fields.
    pub open spec fn fits(self) -> bool {
        self.file_name.len() <= 65535 && self.extra_field.len() <= 65535
            && self.file_comment.len() <= 65535
    }
}

/// The number of bytes that the header at the start of `s` says it takes.
pub open spec fn cdh_declared_len(s: Seq<u8>) -> int {
    46 + u16_at(s, 28) + u16_at(s, 30) + u16_at(s, 32)
}

/// What reading a central directory header from the start of `s` gives.
pub open spec fn parse_cdh(s: Seq<u8>) -> Result<CentralDirectoryHeaderView, Fault> {
    if s.len() < 4 {
        Err(Fault::Io)
    } else if u32_at(s, 0) != CENTRAL_DIRECTORY_HEADER_SIGNATURE {
        Err(Fault::InvalidArchive("Invalid Central Directory header"@))
    } else if s.len() < 46 || s.len() < cdh_declared_len(s) {
        Err(Fault::Io)
    } else {
        let n = u16_at(s, 28) as int;
        let e = u16_at(s, 30) as int;
        let c = u16_at(s, 32) as int;
        Ok(
            CentralDirectoryHeaderView {
                version_made_by: u16_at(s, 4),
                version_needed: u16_at(s, 6),
                flags: u16_at(s, 8),
                compression_method: u16_at(s, 10),
                last_mod_time: u16_at(s, 12),
                last_mod_date: u16_at(s, 14),
                crc32: u32_at(s, 16),
                compressed_size: u32_at(s, 20),
                uncompressed_size: u32_at(s, 24),
                disk_number_start: u16_at(s, 34),
                internal_attributes: u16_at(s, 36),
                external_attributes: u32_at(s, 38),
                relative_offset: u32_at(s, 42),
                file_name: s.subrange(46, 46 + n),
                extra_field: s.subrange(46 + n, 46 + n + e),
                file_comment: s.subrange(46 + n + e, 46 + n + e + c),
            },
        )
    }
}

/// The 46 bytes that a central directory header starts with. Each length field holds
/// the length of its part modulo 65536.
pub open spec fn cdh_fixed_bytes(v: CentralDirectoryHeaderView) -> Seq<u8> {
    u32_le_bytes(CENTRAL_DIRECTORY_HEADER_SIGNATURE) + u16_le_bytes(v.version_made_by)
        + u16_le_bytes(v.version_needed) + u16_le_bytes(v.flags) + u16_le_bytes(
        v.compression_method,
    ) + u16_le_bytes(v.last_mod_time) + u16_le_bytes(v.last_mod_date) + u32_le_bytes(v.crc32)
        + u32_le_bytes(v.compressed_size) + u32_le_bytes(v.uncompressed_size) + u16_le_bytes(
        (v.file_name.len() % 65536) as u16,
    ) + u16_le_bytes((v.extra_field.len() % 65536) as u16) + u16_le_bytes(
        (v.file_comment.len() % 65536) as u16,
    ) + u16_le_bytes(v.disk_number_start) + u16_le_bytes(v.internal_attributes) + u32_le_bytes(
        v.external_attributes,
    ) + u32_le_bytes(v.relative_offset)
}

/// The bytes of a central directory header: the fixed part, then name, extra field and
/// comment.
pub open spec fn cdh_bytes(v: CentralDirectoryHeaderView) -> Seq<u8> {
    cdh_fixed_bytes(v) + v.file_name + v.extra_field + v.file_comment
}

impl CentralDirectoryHeader {
    /// The number of bytes that the header takes in the archive.
    pub fn len(&self) -> (r: u64)
        requires
            self@.fits(),
        ensures
            r == self@.len(),
    {
        46 + self.file_name.len() as u64 + self.extra_field.len() as u64
            + self.file_comment.len() as u64
    }

    /// Reads the header from the start of `data`. Bytes after it are ignored.
    pub fn parse(data: &[u8]) -> (r: ZipResult<CentralDirectoryHeader>)
        ensures
            match r {
                Ok(h) => parse_cdh(data@) == Ok::<CentralDirectoryHeaderView, Fault>(h@)
                    && h@.fits(),
                Err(err) => parse_cdh(data@) == Err::<CentralDirectoryHeaderView, Fault>(err@),
            },
    {
        if data.len() < 4 {
            return Err(truncated());
        }
        let signature: u32 = read_u32_le(data, 0);
        if signature != CENTRAL_DIRECTORY_HEADER_SIGNATURE {
            return Err(ZipError::InvalidArchive("Invalid Central Directory header"));
        }
        if data.len() < 46 {
            return Err(truncated());
        }
        let version_made_by: u16 = read_u16_le(data, 4);
        let version_needed: u16 = read_u16_le(data, 6);
        let flags: u16 = read_u16_le(data, 8);
        let compression_method: u16 = read_u16_le(data, 10);
        let last_mod_time: u16 = read_u16_le(data, 12);
        let last_mod_date: u16 = read_u16_le(data, 14);
        let crc32: u32 = read_u32_le(data, 16);
        let compressed_size: u32 = read_u32_le(data, 20);
        let uncompressed_size: u32 = read_u32_le(data, 24);
        let file_name_length: usize = read_u16_le(data, 28) as usize;
        let extra_field_length: usize = read_u16_le(data, 30) as usize;
        let file_comment_length: usize = read_u16_le(data, 32) as usize;
        let disk_number_start: u16 = read_u16_le(data, 34);
        let internal_attributes: u16 = read_u16_le(data, 36);
        let external_attributes: u32 = read_u32_le(data, 38);
        let relative_offset: u32 = read_u32_le(data, 42);
        let variable: usize = file_name_length + extra_field_length + file_comment_length;
        if data.len() - 46 < variable {
            return Err(truncated());
        }
        let name_end: usize = 46 + file_name_length;
        let extra_end: usize = name_end + extra_field_length;
        let file_name = copy_range(data, 46, name_end);
        let extra_field = copy_range(data, name_end, extra_end);
        let file_comment = copy_range(data, extra_end, extra_end + file_comment_length);
        Ok(
            CentralDirectoryHeader {
                version_made_by,
                version_needed,
                flags,
                compression_method,
                last_mod_time,
                last_mod_date,
                crc32,
                compressed_size,
                uncompressed_size,
                disk_number_start,
                internal_attributes,
                external_attributes,
                relative_offset,
                file_name,
                extra_field,
                file_comment,
            },
        )
    }

    /// Appends the header to `writer`.
    pub fn write(&self, writer: &mut Vec<u8>) -> (r: ZipResult<()>)
        ensures
            r is Ok,
            final(writer)@ == old(writer)@ + cdh_bytes(self@),
    {
        write_u32_le(writer, CENTRAL_DIRECTORY_HEADER_SIGNATURE);
        write_u16_le(writer, self.version_made_by);
        write_u16_le(writer, self.version_needed);
        write_u16_le(writer, self.flags);
        write_u16_le(writer, self.compression_method);
        write_u16_le(writer, self.last_mod_time);
        write_u16_le(writer, self.last_mod_date);
        write_u32_le(writer, self.crc32);
        write_u32_le(writer, self.compressed_size);
        write_u32_le(writer, self.uncompressed_size);
        write_u16_le(writer, (self.file_name.len() % 65536) as u16);
        write_u16_le(writer, (self.extra_field.len() % 65536) as u16);
        write_u16_le(writer, (self.file_comment.len() % 65536) as u16);
        write_u16_le(writer, self.disk_number_start);
        write_u16_le(writer, self.internal_attributes);
        write_u32_le(writer, self.external_attributes);
        write_u32_le(writer, self.relative_offset);
        assert(writer@ =~= old(writer)@ + cdh_fixed_bytes(self@));
        writer.extend_from_slice(self.file_name.as_slice());
        writer.extend_from_slice(self.extra_field.as_slice());
        writer.extend_from_slice(self.file_comment.as_slice());
        assert(writer@ =~= old(writer)@ + cdh_bytes(self@));
        Ok(())
    }
}

/// The fixed part of a header that was read from a byte sequence is the first 46 bytes
/// of that sequence.
proof fn lemma_cdh_fixed_part(s: Seq<u8>)
    requires
        parse_cdh(s) is Ok,
    ensures
        cdh_fixed_bytes(parse_cdh(s)->Ok_0) == s.subrange(0, 46),
{
    let v = parse_cdh(s)->Ok_0;
    lemma_u32_encoding_at(s, 0);
    lemma_u16_encoding_at(s, 4);
    lemma_u16_encoding_at(s, 6);
    lemma_u16_encoding_at(s, 8);
    lemma_u16_encoding_at(s, 10);
    lemma_u16_encoding_at(s, 12);
    lemma_u16_encoding_at(s, 14);
    lemma_u32_encoding_at(s, 16);
    lemma_u32_encoding_at(s, 20);
    lemma_u32_encoding_at(s, 24);
    lemma_u16_encoding_at(s, 28);
    lemma_u16_encoding_at(s, 30);
    lemma_u16_encoding_at(s, 32);
    lemma_u16_encoding_at(s, 34);
    lemma_u16_encoding_at(s, 36);
    lemma_u32_encoding_at(s, 38);
    lemma_u32_encoding_at(s, 42);
    assert(cdh_fixed_bytes(v) =~= s.subrange(0, 46));
}

/// A header that was read from a byte sequence is written as the bytes it was read
/// from.
pub proof fn lemma_cdh_parse_then_write(s: Seq<u8>)
    requires
        parse_cdh(s) is Ok,
    ensures
        cdh_bytes(parse_cdh(s)->Ok_0) == s.subrange(0, parse_cdh(s)->Ok_0.len()),
{
    let v = parse_cdh(s)->Ok_0;
    lemma_cdh_fixed_part(s);
    assert(cdh_bytes(v) =~= s.subrange(0, v.len()));
}

/// A header whose variable parts fit their length fields is read back from the bytes
/// it is written as, whatever follows them.
pub proof fn lemma_cdh_write_then_parse(v: CentralDirectoryHeaderView, rest: Seq<u8>)
    requires
        v.fits(),
    ensures
        parse_cdh(cdh_bytes(v) + rest) == Ok::<CentralDirectoryHeaderView, Fault>(v),
{
    broadcast use group_read_back;

    let f = cdh_fixed_bytes(v);
    let s = cdh_bytes(v) + rest;
    assert(f.len() == 46);
    assert(s =~= f + (v.file_name + v.extra_field + v.file_comment + rest));
    assert(u32_at(s, 0) == CENTRAL_DIRECTORY_HEADER_SIGNATURE);
    let got = parse_cdh(s)->Ok_0;
    assert(got.file_name =~= v.file_name);
    assert(got.extra_field =~= v.extra_field);
    assert(got.file_comment =~= v.file_comment);
}

/// A local file header as it stands in the archive, field by field.
#[derive(Debug, Clone)]
pub struct LocalFileHeader {
    pub version_needed: u16,
    pub flags: u16,
    pub compression_method: u16,
    pub last_mod_time: u16,
    pub last_mod_date: u16,
    pub crc32: u32,
    pub compressed_size: u32,
    pub uncompressed_size: u32,
    pub file_name: Vec<u8>,
    pub extra_field: Vec<u8>,
}

/// The content of a local file header.
pub struct LocalFileHeaderView {
    pub version_needed: u16,
    pub flags: u16,
    pub compression_method: u16,
    pub last_mod_time: u16,
    pub last_mod_date: u16,
    pub crc32: u32,
    pub compressed_size: u32,
    pub uncompressed_size: u32,
    pub file_name: Seq<u8>,
    pub extra_field: Seq<u8>,
}

impl View for LocalFileHeader {
    type V = LocalFileHeaderView;

    open spec fn view(&self) -> LocalFileHeaderView {
        LocalFileHeaderView {
            version_needed: self.version_needed,
            flags: self.flags,
            compression_method: self.compression_method,
            last_mod_time: self.last_mod_time,
            last_mod_date: self.last_mod_date,
            crc32: self.crc32,
            compressed_size: self.compressed_size,
            uncompressed_size: self.uncompressed_size,
            file_name: self.file_name@,
            extra_field: self.extra_field@,
        }
    }
}

impl LocalFileHeaderView {
    /// The number of bytes that the header takes in the archive.
    pub open spec fn len(self) -> int {
        30 + self.file_name.len() as int + self.extra_field.len() as int
    }

    /// True when the two variable parts fit their 16-bit length fields.
    pub open spec fn fits(self) -> bool {
        self.file_name.len() <= 65535 && self.extra_field.len() <= 65535
    }
}

/// What reading a local file header from the start of `s` gives.
pub open spec fn parse_lfh(s: Seq<u8>) -> Result<LocalFileHeaderView, Fault> {
    if s.len() < 4 {
        Err(Fault::Io)
    } else if u32_at(s, 0) != LOCAL_FILE_HEADER_SIGNATURE {
        Err(Fault::InvalidArchive("Invalid local file header"@))
    } else if s.len() < 30 || s.len() < 30 + u16_at(s, 26) + u16_at(s, 28) {
        Err(Fault::Io)
    } else {
        let n = u16_at(s, 26) as int;
        let e = u16_at(s, 28) as int;
        Ok(
            LocalFileHeaderView {
                version_needed: u16_at(s, 4),
                flags: u16_at(s, 6),
                compression_method: u16_at(s, 8),
                last_mod_time: u16_at(s, 10),
                last_mod_date: u16_at(s, 12),
                crc32: u32_at(s, 14),
                compressed_size: u32_at(s, 18),
                uncompressed_size: u32_at(s, 22),
                file_name: s.subrange(30, 30 + n),
                extra_field: s.subrange(30 + n, 30 + n + e),
            },
        )
    }
}

/// The 30 bytes that a local file header starts with. Each length field holds the
/// length of its part modulo 65536.
pub open spec fn lfh_fixed_bytes(v: LocalFileHeaderView) -> Seq<u8> {
    u32_le_bytes(LOCAL_FILE_HEADER_SIGNATURE) + u16_le_bytes(v.version_needed) + u16_le_bytes(
        v.flags,
    ) + u16_le_bytes(v.compression_method) + u16_le_bytes(v.last_mod_time) + u16_le_bytes(
        v.last_mod_date,
    ) + u32_le_bytes(v.crc32) + u32_le_bytes(v.compressed_size) + u32_le_bytes(
        v.uncompressed_size,
    ) + u16_le_bytes((v.file_name.len() % 65536) as u16) + u16_le_bytes(
        (v.extra_field.len() % 65536) as u16,
    )
}

/// The bytes of a local file header: the fixed part, then name and extra field.
pub open spec fn lfh_bytes(v: LocalFileHeaderView) -> Seq<u8> {
    lfh_fixed_bytes(v) + v.file_name + v.extra_field
}

impl LocalFileHeader {
    /// Reads the header from the start of `data`. Bytes after it are ignored.
    pub fn parse(data: &[u8]) -> (r: ZipResult<LocalFileHeader>)
        ensures
            match r {
                Ok(h) => parse_lfh(data@) == Ok::<LocalFileHeaderView, Fault>(h@) && h@.fits(),
                Err(err) => parse_lfh(data@) == Err::<LocalFileHeaderView, Fault>(err@),
            },
    {
        if data.len() < 4 {
            return Err(truncated());
        }
        let signature: u32 = read_u32_le(data, 0);
        if signature != LOCAL_FILE_HEADER_SIGNATURE {
            return Err(ZipError::InvalidArchive("Invalid local file header"));
        }
        if data.len() < 30 {
            return Err(truncated());
        }
        let version_needed: u16 = read_u16_le(data, 4);
        let flags: u16 = read_u16_le(data, 6);
        let compression_method: u16 = read_u16_le(data, 8);
        let last_mod_time: u16 = read_u16_le(data, 10);
        let last_mod_date: u16 = read_u16_le(data, 12);
        let crc32: u32 = read_u32_le(data, 14);
        let compressed_size: u32 = read_u32_le(data, 18);
        let uncompressed_size: u32 = read_u32_le(data, 22);
        let file_name_length: usize = read_u16_le(data, 26) as usize;
        let extra_field_length: usize = read_u16_le(data, 28) as usize;
        if data.len() - 30 < file_name_length + extra_field_length {
            return Err(truncated());
        }
        let name_end: usize = 30 + file_name_length;
        let file_name = copy_range(data, 30, name_end);
        let extra_field = copy_range(data, name_end, name_end + extra_field_length);
        Ok(
            LocalFileHeader {
                version_needed,
                flags,
                compression_method,
                last_mod_time,
                last_mod_date,
                crc32,
                compressed_size,
                uncompressed_size,
                file_name,
                extra_field,
            },
        )
    }

    /// Appends the header to `writer`.
    pub fn write(&self, writer: &mut Vec<u8>) -> (r: ZipResult<()>)
        ensures
            r is Ok,
            final(writer)@ == old(writer)@ + lfh_bytes(self@),
    {
        write_u32_le(writer, LOCAL_FILE_HEADER_SIGNATURE);
        write_u16_le(writer, self.version_needed);
        write_u16_le(writer, self.flags);
        write_u16_le(writer, self.compression_method);
        write_u16_le(writer, self.last_mod_time);
        write_u16_le(writer, self.last_mod_date);
        write_u32_le(writer, self.crc32);
        write_u32_le(writer, self.compressed_size);
        write_u32_le(writer, self.uncompressed_size);
        write_u16_le(writer, (self.file_name.len() % 65536) as u16);
        write_u16_le(writer, (self.extra_field.len() % 65536) as u16);
        assert(writer@ =~= old(writer)@ + lfh_fixed_bytes(self@));
        writer.extend_from_slice(self.file_name.as_slice());
        writer.extend_from_slice(self.extra_field.as_slice());
        assert(writer@ =~= old(writer)@ + lfh_bytes(self@));
        Ok(())
    }
}

/// A header that was read from a byte sequence is written as the bytes it was read
/// from.
pub proof fn lemma_lfh_parse_then_write(s: Seq<u8>)
    requires
        parse_lfh(s) is Ok,
    ensures
        lfh_bytes(parse_lfh(s)->Ok_0) == s.subrange(0, parse_lfh(s)->Ok_0.len()),
{
    let v = parse_lfh(s)->Ok_0;
    lemma_u32_encoding_at(s, 0);
    lemma_u16_encoding_at(s, 4);
    lemma_u16_encoding_at(s, 6);
    lemma_u16_encoding_at(s, 8);
    lemma_u16_encoding_at(s, 10);
    lemma_u16_encoding_at(s, 12);
    lemma_u32_encoding_at(s, 14);
    lemma_u32_encoding_at(s, 18);
    lemma_u32_encoding_at(s, 22);
    lemma_u16_encoding_at(s, 26);
    lemma_u16_encoding_at(s, 28);
    assert(lfh_fixed_bytes(v) =~= s.subrange(0, 30));
    assert(lfh_bytes(v) =~= s.subrange(0, v.len()));
}

/// A header whose variable parts fit their length fields is read back from the bytes
/// it is written as, whatever follows them.
pub proof fn lemma_lfh_write_then_parse(v: LocalFileHeaderView, rest: Seq<u8>)
    requires
        v.fits(),
    ensures
        parse_lfh(lfh_bytes(v) + rest) == Ok::<LocalFileHeaderView, Fault>(v),
{
    broadcast use group_read_back;

    let f = lfh_fixed_bytes(v);
    let s = lfh_bytes(v) + rest;
    assert(f.len() == 30);
    assert(s =~= f + (v.file_name + v.extra_field + rest));
    assert(u32_at(s, 0) == LOCAL_FILE_HEADER_SIGNATURE);
    let got = parse_lfh(s)->Ok_0;
    assert(got.file_name =~= v.file_name);
    assert(got.extra_field =~= v.extra_field);
}

} // verus!
