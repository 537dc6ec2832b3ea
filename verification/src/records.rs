//! The three records that end an archive: the end of central directory record, its
//! ZIP64 counterpart and the locator that points to the latter.

use vstd::prelude::*;
use vstd::slice::slice_subrange;
use crate::codec::{
    copy_range, group_read_back, lemma_u16_encoding_at, lemma_u32_encoding_at,
    lemma_u64_encoding_at, read_u16_le, read_u32_le, read_u64_le, u16_at, u16_le_bytes, u32_at,
    u32_le_bytes, u64_at, u64_le_bytes, write_u16_le, write_u32_le, write_u64_le,
};
use crate::result::{truncated, Fault, ZipError, ZipResult};

verus! {

pub const LOCAL_FILE_HEADER_SIGNATURE: u32 = 0x04034b50;

pub const CENTRAL_DIRECTORY_HEADER_SIGNATURE: u32 = 0x02014b50;

pub const CENTRAL_DIRECTORY_END_SIGNATURE: u32 = 0x06054b50;

pub const ZIP64_CENTRAL_DIRECTORY_END_SIGNATURE: u32 = 0x06064b50;

pub const ZIP64_CENTRAL_DIRECTORY_END_LOCATOR_SIGNATURE: u32 = 0x07064b50;

/// Sizes and offsets above this value need the ZIP64 fields.
pub const ZIP64_BYTES_THR: u64 = 0xFFFF_FFFF;

/// Entry counts above this value need the ZIP64 record.
pub const ZIP64_ENTRY_THR: usize = 0xFFFF;

/// The end of central directory record.
pub struct CentralDirectoryEnd {
    pub disk_number: u16,
    pub disk_with_central_directory: u16,
    pub number_of_files_on_this_disk: u16,
    pub number_of_files: u16,
    pub central_directory_size: u32,
    pub central_directory_offset: u32,
    pub zip_file_comment: Vec<u8>,
}

/// The content of an end of central directory record.
pub struct CentralDirectoryEndView {
    pub disk_number: u16,
    pub disk_with_central_directory: u16,
    pub number_of_files_on_this_disk: u16,
    pub number_of_files: u16,
    pub central_directory_size: u32,
    pub central_directory_offset: u32,
    pub zip_file_comment: Seq<u8>,
}

impl View for CentralDirectoryEnd {
    type V = CentralDirectoryEndView;

    open spec fn view(&self) -> CentralDirectoryEndView {
        CentralDirectoryEndView {
            disk_number: self.disk_number,
            disk_with_central_directory: self.disk_with_central_directory,
            number_of_files_on_this_disk: self.number_of_files_on_this_disk,
            number_of_files: self.number_of_files,
            central_directory_size: self.central_directory_size,
            central_directory_offset: self.central_directory_offset,
            zip_file_comment: self.zip_file_comment@,
        }
    }
}

/// What reading an end of central directory record from the start of `s` gives.
pub open spec fn parse_eocd(s: Seq<u8>) -> Result<CentralDirectoryEndView, Fault> {
    if s.len() < 4 {
        Err(Fault::Io)
    } else if u32_at(s, 0) != CENTRAL_DIRECTORY_END_SIGNATURE {
        Err(Fault::InvalidArchive("Invalid digital signature header"@))
    } else if s.len() < 22 + u16_at(s, 20) {
        Err(Fault::Io)
    } else {
        Ok(
            CentralDirectoryEndView {
                disk_number: u16_at(s, 4),
                disk_with_central_directory: u16_at(s, 6),
                number_of_files_on_this_disk: u16_at(s, 8),
                number_of_files: u16_at(s, 10),
                central_directory_size: u32_at(s, 12),
                central_directory_offset: u32_at(s, 16),
                zip_file_comment: s.subrange(22, 22 + u16_at(s, 20)),
            },
        )
    }
}

/// The bytes of an end of central directory record: 22 bytes and the comment. The
/// length field holds the comment's length modulo 65536.
pub open spec fn eocd_bytes(v: CentralDirectoryEndView) -> Seq<u8> {
    u32_le_bytes(CENTRAL_DIRECTORY_END_SIGNATURE) + u16_le_bytes(v.disk_number) + u16_le_bytes(
        v.disk_with_central_directory,
    ) + u16_le_bytes(v.number_of_files_on_this_disk) + u16_le_bytes(v.number_of_files)
        + u32_le_bytes(v.central_directory_size) + u32_le_bytes(v.central_directory_offset)
        + u16_le_bytes((v.zip_file_comment.len() % 65536) as u16) + v.zip_file_comment
}

/// True when one of the fields holds the value that says "see the ZIP64 record".
pub open spec fn eocd_too_small(v: CentralDirectoryEndView) -> bool {
    ||| v.disk_number == 0xFFFF
    ||| v.disk_with_central_directory == 0xFFFF
    ||| v.number_of_files_on_this_disk == 0xFFFF
    ||| v.number_of_files == 0xFFFF
    ||| v.central_directory_size == 0xFFFFFFFF
    ||| v.central_directory_offset == 0xFFFFFFFF
}

/// True when the four bytes at `pos` are the signature of the record.
pub open spec fn eocd_signature_at(s: Seq<u8>, pos: int) -> bool {
    0 <= pos && pos + 4 <= s.len() && u32_at(s, pos) == CENTRAL_DIRECTORY_END_SIGNATURE
}

/// The lowest offset at which the record is looked for: a comment has at most 65535
/// bytes.
pub open spec fn eocd_scan_floor(len: int) -> int {
    if len > 22 + 65535 {
        len - 22 - 65535
    } else {
        0
    }
}

/// True when `pos` is the highest offset in the scanned range that holds the signature.
pub open spec fn is_eocd_position(s: Seq<u8>, pos: int) -> bool {
    &&& eocd_scan_floor(s.len() as int) <= pos <= s.len() - 22
    &&& eocd_signature_at(s, pos)
    &&& forall|q: int| pos < q <= s.len() - 22 ==> !eocd_signature_at(s, q)
}

/// True when some offset in the scanned range holds the signature.
pub open spec fn has_eocd_signature(s: Seq<u8>) -> bool {
    exists|q: int|
        eocd_scan_floor(s.len() as int) <= q <= s.len() - 22 && eocd_signature_at(s, q)
}

/// What looking for the record from the end of `s` backwards gives: the record that
/// stands at the highest offset of the scanned range that holds the signature, and
/// that offset.
pub open spec fn find_eocd(s: Seq<u8>) -> Result<(CentralDirectoryEndView, u64), Fault> {
    if s.len() < 22 {
        Err(Fault::InvalidArchive("Invalid zip header"@))
    } else if !has_eocd_signature(s) {
        Err(Fault::InvalidArchive("Could not find central directory end"@))
    } else {
        let p = choose|p: int| is_eocd_position(s, p);
        match parse_eocd(s.subrange(p, s.len() as int)) {
            Ok(v) => Ok((v, p as u64)),
            Err(f) => Err(f),
        }
    }
}

/// Where an offset of the scanned range holds the signature, one of them is the
/// highest that does.
pub proof fn lemma_highest_eocd_signature(s: Seq<u8>, q: int, top: int) -> (p: int)
    requires
        eocd_scan_floor(s.len() as int) <= q <= top <= s.len() - 22,
        eocd_signature_at(s, q),
        forall|j: int| top < j <= s.len() - 22 ==> !eocd_signature_at(s, j),
    ensures
        is_eocd_position(s, p),
    decreases top - q,
{
    if eocd_signature_at(s, top) {
        top
    } else {
        lemma_highest_eocd_signature(s, q, top - 1)
    }
}

/// The record is found at the highest offset of the scanned range that holds the
/// signature, and read from there.
pub proof fn lemma_find_eocd_at(s: Seq<u8>, p: int)
    requires
        is_eocd_position(s, p),
    ensures
        find_eocd(s) == match parse_eocd(s.subrange(p, s.len() as int)) {
            Ok(v) => Ok::<(CentralDirectoryEndView, u64), Fault>((v, p as u64)),
            Err(f) => Err::<(CentralDirectoryEndView, u64), Fault>(f),
        },
{
    assert(has_eocd_signature(s));
    let chosen = choose|c: int| is_eocd_position(s, c);
    if chosen < p {
        assert(eocd_signature_at(s, p));
    }
    if p < chosen {
        assert(eocd_signature_at(s, chosen));
    }
}

impl CentralDirectoryEnd {
    /// Per the format a field of this record may be too small to hold its value. The
    /// archive then holds a ZIP64 record, and the field has all its bits set.
    pub fn record_too_small(&self) -> (r: bool)
        ensures
            r == eocd_too_small(self@),
    {
        self.disk_number == 0xFFFF || self.disk_with_central_directory == 0xFFFF
            || self.number_of_files_on_this_disk == 0xFFFF || self.number_of_files == 0xFFFF
            || self.central_directory_size == 0xFFFFFFFF || self.central_directory_offset
            == 0xFFFFFFFF
    }

    /// Reads the record from the start of `data`. Bytes after the comment are ignored.
    pub fn parse(data: &[u8]) -> (r: ZipResult<CentralDirectoryEnd>)
        ensures
            match r {
                Ok(e) => parse_eocd(data@) == Ok::<CentralDirectoryEndView, Fault>(e@),
                Err(err) => parse_eocd(data@) == Err::<CentralDirectoryEndView, Fault>(err@),
            },
    {
        if data.len() < 4 {
            return Err(truncated());
        }
        let magic: u32 = read_u32_le(data, 0);
        if magic != CENTRAL_DIRECTORY_END_SIGNATURE {
            return Err(ZipError::InvalidArchive("Invalid digital signature header"));
        }
        if data.len() < 22 {
            return Err(truncated());
        }
        let disk_number: u16 = read_u16_le(data, 4);
        let disk_with_central_directory: u16 = read_u16_le(data, 6);
        let number_of_files_on_this_disk: u16 = read_u16_le(data, 8);
        let number_of_files: u16 = read_u16_le(data, 10);
        let central_directory_size: u32 = read_u32_le(data, 12);
        let central_directory_offset: u32 = read_u32_le(data, 16);
        let zip_file_comment_length: usize = read_u16_le(data, 20) as usize;
        if data.len() - 22 < zip_file_comment_length {
            return Err(truncated());
        }
        let zip_file_comment = copy_range(data, 22, 22 + zip_file_comment_length);
        Ok(
            CentralDirectoryEnd {
                disk_number,
                disk_with_central_directory,
                number_of_files_on_this_disk,
                number_of_files,
                central_directory_size,
                central_directory_offset,
                zip_file_comment,
            },
        )
    }

    /// Looks for the record from the end of the archive backwards, over the last
    /// 22 + 65535 bytes, and reads it where the signature is first met. Returns the
    /// record and the offset it stands at.
    pub fn find_and_parse(data: &[u8]) -> (r: ZipResult<(CentralDirectoryEnd, u64)>)
        ensures
            data@.len() < 22 ==> r is Err && r->Err_0@ == Fault::InvalidArchive(
                "Invalid zip header"@,
            ),
            data@.len() >= 22 && !has_eocd_signature(data@) ==> r is Err && r->Err_0@
                == Fault::InvalidArchive("Could not find central directory end"@),
            forall|p: int| #[trigger]
                is_eocd_position(data@, p) ==> match parse_eocd(
                    data@.subrange(p, data@.len() as int),
                ) {
                    Ok(v) => r is Ok && r->Ok_0.0@ == v && r->Ok_0.1 == p,
                    Err(f) => r is Err && r->Err_0@ == f,
                },
            r is Ok ==> r->Ok_0.1 + 22 <= data@.len(),
            match r {
                Ok(found) => find_eocd(data@) == Ok::<(CentralDirectoryEndView, u64), Fault>(
                    (found.0@, found.1),
                ),
                Err(err) => find_eocd(data@) == Err::<(CentralDirectoryEndView, u64), Fault>(
                    err@,
                ),
            },
    {
        let len: usize = data.len();
        if len < 22 {
            return Err(ZipError::InvalidArchive("Invalid zip header"));
        }
        let floor: usize = if len > 22 + 65535 {
            len - 22 - 65535
        } else {
            0
        };
        let mut pos: usize = len - 22;
        loop
            invariant
                len == data@.len(),
                len >= 22,
                floor == eocd_scan_floor(len as int),
                floor <= pos <= len - 22,
                forall|q: int| pos < q <= len - 22 ==> !eocd_signature_at(data@, q),
            ensures
                forall|q: int| floor <= q <= len - 22 ==> !eocd_signature_at(data@, q),
            decreases pos,
        {
            if read_u32_le(data, pos) == CENTRAL_DIRECTORY_END_SIGNATURE {
                let tail = slice_subrange(data, pos, len);
                assert(is_eocd_position(data@, pos as int));
                assert forall|p: int| #[trigger] is_eocd_position(data@, p) implies p == pos by {
                    if p < pos {
                        assert(eocd_signature_at(data@, pos as int));
                    }
                }
                assert(has_eocd_signature(data@));
                return match CentralDirectoryEnd::parse(tail) {
                    Ok(cde) => Ok((cde, pos as u64)),
                    Err(e) => Err(e),
                };
            }
            if pos == floor {
                break ;
            }
            pos = pos - 1;
        }
        assert(!has_eocd_signature(data@));
        assert forall|p: int| !#[trigger] is_eocd_position(data@, p) by {}
        Err(ZipError::InvalidArchive("Could not find central directory end"))
    }

    /// Appends the record to `writer`.
    pub fn write(&self, writer: &mut Vec<u8>) -> (r: ZipResult<()>)
        ensures
            r is Ok,
            final(writer)@ == old(writer)@ + eocd_bytes(self@),
    {
        write_u32_le(writer, CENTRAL_DIRECTORY_END_SIGNATURE);
        write_u16_le(writer, self.disk_number);
        write_u16_le(writer, self.disk_with_central_directory);
        write_u16_le(writer, self.number_of_files_on_this_disk);
        write_u16_le(writer, self.number_of_files);
        write_u32_le(writer, self.central_directory_size);
        write_u32_le(writer, self.central_directory_offset);
        write_u16_le(writer, (self.zip_file_comment.len() % 65536) as u16);
        writer.extend_from_slice(self.zip_file_comment.as_slice());
        assert(writer@ =~= old(writer)@ + eocd_bytes(self@));
        Ok(())
    }
}

/// A record that was read from a byte sequence is written as the bytes it was read
/// from: the 22 bytes and the comment.
pub proof fn lemma_eocd_parse_then_write(s: Seq<u8>)
    requires
        parse_eocd(s) is Ok,
    ensures
        eocd_bytes(parse_eocd(s)->Ok_0) == s.subrange(
            0,
            22 + parse_eocd(s)->Ok_0.zip_file_comment.len() as int,
        ),
{
    let v = parse_eocd(s)->Ok_0;
    lemma_u32_encoding_at(s, 0);
    lemma_u16_encoding_at(s, 4);
    lemma_u16_encoding_at(s, 6);
    lemma_u16_encoding_at(s, 8);
    lemma_u16_encoding_at(s, 10);
    lemma_u32_encoding_at(s, 12);
    lemma_u32_encoding_at(s, 16);
    lemma_u16_encoding_at(s, 20);
    assert(eocd_bytes(v) =~= s.subrange(0, 22 + v.zip_file_comment.len() as int));
}

/// A record whose comment fits the length field is read back from the bytes it is
/// written as, whatever follows them.
pub proof fn lemma_eocd_write_then_parse(v: CentralDirectoryEndView, rest: Seq<u8>)
    requires
        v.zip_file_comment.len() <= 65535,
    ensures
        parse_eocd(eocd_bytes(v) + rest) == Ok::<CentralDirectoryEndView, Fault>(v),
{
    broadcast use group_read_back;

    let s = eocd_bytes(v) + rest;
    assert(eocd_bytes(v).len() == 22 + v.zip_file_comment.len());
    assert(u32_at(s, 0) == CENTRAL_DIRECTORY_END_SIGNATURE);
    assert(u16_at(s, 20) == v.zip_file_comment.len());
    assert(s.subrange(22, 22 + u16_at(s, 20)) =~= v.zip_file_comment);
}

/// The locator that stands before the end of central directory record of a ZIP64
/// archive and says where the ZIP64 record is.
#[derive(Debug, Clone, Copy, PartialEq, Eq, Structural)]
pub struct Zip64CentralDirectoryEndLocator {
    pub disk_with_central_directory: u32,
    pub end_of_central_directory_offset: u64,
    pub number_of_disks: u32,
}

/// What reading a locator from the start of `s` gives.
pub open spec fn parse_locator(s: Seq<u8>) -> Result<Zip64CentralDirectoryEndLocator, Fault> {
    if s.len() < 4 {
        Err(Fault::Io)
    } else if u32_at(s, 0) != ZIP64_CENTRAL_DIRECTORY_END_LOCATOR_SIGNATURE {
        Err(Fault::InvalidArchive("Invalid zip64 locator digital signature header"@))
    } else if s.len() < 20 {
        Err(Fault::Io)
    } else {
        Ok(
            Zip64CentralDirectoryEndLocator {
                disk_with_central_directory: u32_at(s, 4),
                end_of_central_directory_offset: u64_at(s, 8),
                number_of_disks: u32_at(s, 16),
            },
        )
    }
}

/// The 20 bytes of a locator.
pub open spec fn locator_bytes(v: Zip64CentralDirectoryEndLocator) -> Seq<u8> {
    u32_le_bytes(ZIP64_CENTRAL_DIRECTORY_END_LOCATOR_SIGNATURE) + u32_le_bytes(
        v.disk_with_central_directory,
    ) + u64_le_bytes(v.end_of_central_directory_offset) + u32_le_bytes(v.number_of_disks)
}

impl Zip64CentralDirectoryEndLocator {
    /// Reads the locator from the start of `data`. Bytes after it are ignored.
    pub fn parse(data: &[u8]) -> (r: ZipResult<Zip64CentralDirectoryEndLocator>)
        ensures
            match r {
                Ok(v) => parse_locator(data@) == Ok::<Zip64CentralDirectoryEndLocator, Fault>(v),
                Err(err) => parse_locator(data@) == Err::<Zip64CentralDirectoryEndLocator, Fault>(
                    err@,
                ),
            },
    {
        if data.len() < 4 {
            return Err(truncated());
        }
        let magic: u32 = read_u32_le(data, 0);
        if magic != ZIP64_CENTRAL_DIRECTORY_END_LOCATOR_SIGNATURE {
            return Err(
                ZipError::InvalidArchive("Invalid zip64 locator digital signature header"),
            );
        }
        if data.len() < 20 {
            return Err(truncated());
        }
        let disk_with_central_directory: u32 = read_u32_le(data, 4);
        let end_of_central_directory_offset: u64 = read_u64_le(data, 8);
        let number_of_disks: u32 = read_u32_le(data, 16);
        Ok(
            Zip64CentralDirectoryEndLocator {
                disk_with_central_directory,
                end_of_central_directory_offset,
                number_of_disks,
            },
        )
    }

    /// Appends the locator to `writer`.
    pub fn write(&self, writer: &mut Vec<u8>) -> (r: ZipResult<()>)
        ensures
            r is Ok,
            final(writer)@ == old(writer)@ + locator_bytes(*self),
    {
        write_u32_le(writer, ZIP64_CENTRAL_DIRECTORY_END_LOCATOR_SIGNATURE);
        write_u32_le(writer, self.disk_with_central_directory);
        write_u64_le(writer, self.end_of_central_directory_offset);
        write_u32_le(writer, self.number_of_disks);
        assert(writer@ =~= old(writer)@ + locator_bytes(*self));
        Ok(())
    }
}

/// A locator that was read from a byte sequence is written as the 20 bytes it was read
/// from.
pub proof fn lemma_locator_parse_then_write(s: Seq<u8>)
    requires
        parse_locator(s) is Ok,
    ensures
        locator_bytes(parse_locator(s)->Ok_0) == s.subrange(0, 20),
{
    lemma_u32_encoding_at(s, 0);
    lemma_u32_encoding_at(s, 4);
    lemma_u64_encoding_at(s, 8);
    lemma_u32_encoding_at(s, 16);
    assert(locator_bytes(parse_locator(s)->Ok_0) =~= s.subrange(0, 20));
}

/// A locator is read back from the bytes it is written as, whatever follows them.
pub proof fn lemma_locator_write_then_parse(v: Zip64CentralDirectoryEndLocator, rest: Seq<u8>)
    ensures
        parse_locator(locator_bytes(v) + rest) == Ok::<Zip64CentralDirectoryEndLocator, Fault>(v),
{
    broadcast use group_read_back;

    let s = locator_bytes(v) + rest;
    assert(locator_bytes(v).len() == 20);
    assert(u32_at(s, 0) == ZIP64_CENTRAL_DIRECTORY_END_LOCATOR_SIGNATURE);
}

/// The ZIP64 end of central directory record, without its extensible data sector.
#[derive(Debug, Clone, Copy, PartialEq, Eq, Structural)]
pub struct Zip64CentralDirectoryEnd {
    pub version_made_by: u16,
    pub version_needed_to_extract: u16,
    pub disk_number: u32,
    pub disk_with_central_directory: u32,
    pub number_of_files_on_this_disk: u64,
    pub number_of_files: u64,
    pub central_directory_size: u64,
    pub central_directory_offset: u64,
}

/// What reading a ZIP64 end of central directory record from the start of `s` gives.
/// The size field has to hold 44: a record that is followed by extensible data is not
/// accepted.
pub open spec fn parse_zip64_eocd(s: Seq<u8>) -> Result<Zip64CentralDirectoryEnd, Fault> {
    if s.len() < 4 {
        Err(Fault::Io)
    } else if u32_at(s, 0) != ZIP64_CENTRAL_DIRECTORY_END_SIGNATURE {
        Err(Fault::InvalidArchive("Invalid digital signature header"@))
    } else if s.len() < 56 {
        Err(Fault::Io)
    } else if u64_at(s, 4) != 44 {
        Err(Fault::InvalidArchive("Invalid ZIP64 central directory end record size"@))
    } else {
        Ok(
            Zip64CentralDirectoryEnd {
                version_made_by: u16_at(s, 12),
                version_needed_to_extract: u16_at(s, 14),
                disk_number: u32_at(s, 16),
                disk_with_central_directory: u32_at(s, 20),
                number_of_files_on_this_disk: u64_at(s, 24),
                number_of_files: u64_at(s, 32),
                central_directory_size: u64_at(s, 40),
                central_directory_offset: u64_at(s, 48),
            },
        )
    }
}

/// The 56 bytes of a ZIP64 end of central directory record.
pub open spec fn zip64_eocd_bytes(v: Zip64CentralDirectoryEnd) -> Seq<u8> {
    u32_le_bytes(ZIP64_CENTRAL_DIRECTORY_END_SIGNATURE) + u64_le_bytes(44) + u16_le_bytes(
        v.version_made_by,
    ) + u16_le_bytes(v.version_needed_to_extract) + u32_le_bytes(v.disk_number) + u32_le_bytes(
        v.disk_with_central_directory,
    ) + u64_le_bytes(v.number_of_files_on_this_disk) + u64_le_bytes(v.number_of_files)
        + u64_le_bytes(v.central_directory_size) + u64_le_bytes(v.central_directory_offset)
}

/// True when the four bytes at `pos` are the signature of the ZIP64 record.
pub open spec fn zip64_signature_at(s: Seq<u8>, pos: int) -> bool {
    0 <= pos && pos + 4 <= s.len() && u32_at(s, pos) == ZIP64_CENTRAL_DIRECTORY_END_SIGNATURE
}

/// The lowest offset from `from` up to `to` that holds the signature of the ZIP64
/// record.
pub open spec fn first_zip64_signature(s: Seq<u8>, from: int, to: int) -> Option<int>
    decreases to - from + 1,
{
    if from > to {
        None
    } else if zip64_signature_at(s, from) {
        Some(from)
    } else {
        first_zip64_signature(s, from + 1, to)
    }
}

/// How a search for the ZIP64 record ends.
pub enum Zip64Scan {
    /// The signature stands at this offset.
    Found(int),
    /// No offset of the range holds the signature.
    Missing,
    /// The range reaches beyond the end of the source.
    Truncated,
}

/// The number of bytes that the search reads in one piece at `pos`: up to 4096, and
/// no more than the last record of the range needs.
pub open spec fn zip64_chunk_len(pos: int, upper: int) -> int {
    if upper - pos >= 4040 {
        4096
    } else {
        56 + (upper - pos)
    }
}

/// The search for the ZIP64 record from `pos` up to `upper`. The source is read in
/// pieces; each piece is read whole before it is looked through, so a piece that
/// reaches beyond the end of the source ends the search, also where a signature stands
/// in the part of it that exists.
pub open spec fn zip64_scan(s: Seq<u8>, pos: int, upper: int) -> Zip64Scan
    decreases upper - pos + 1,
{
    if pos > upper {
        Zip64Scan::Missing
    } else {
        let n = zip64_chunk_len(pos, upper);
        if pos + n > s.len() {
            Zip64Scan::Truncated
        } else {
            match first_zip64_signature(s, pos, pos + n - 56) {
                Some(q) => Zip64Scan::Found(q),
                None => zip64_scan(s, pos + n - 55, upper),
            }
        }
    }
}

/// What the search for the ZIP64 record gives: the record and the distance between
/// where it stands and where `nominal_offset` says it stands.
pub open spec fn find_zip64_eocd(s: Seq<u8>, nominal_offset: u64, search_upper_bound: u64)
    -> Result<(Zip64CentralDirectoryEnd, u64), Fault> {
    match zip64_scan(s, nominal_offset as int, search_upper_bound as int) {
        Zip64Scan::Missing => Err(
            Fault::InvalidArchive("Could not find ZIP64 central directory end"@),
        ),
        Zip64Scan::Truncated => Err(Fault::Io),
        Zip64Scan::Found(q) => match parse_zip64_eocd(s.subrange(q, q + 56)) {
            Ok(v) => Ok((v, (q - nominal_offset) as u64)),
            Err(f) => Err(f),
        },
    }
}

/// Where no offset of a range holds the signature, the search in it finds none.
pub proof fn lemma_no_zip64_signature(s: Seq<u8>, from: int, to: int)
    requires
        forall|j: int| from <= j <= to ==> !zip64_signature_at(s, j),
    ensures
        first_zip64_signature(s, from, to) is None,
    decreases to - from + 1,
{
    if from <= to {
        lemma_no_zip64_signature(s, from + 1, to);
    }
}

/// Where `q` is the lowest offset of a range that holds the signature, the search in
/// it finds `q`.
pub proof fn lemma_first_zip64_signature(s: Seq<u8>, from: int, to: int, q: int)
    requires
        from <= q <= to,
        zip64_signature_at(s, q),
        forall|j: int| from <= j < q ==> !zip64_signature_at(s, j),
    ensures
        first_zip64_signature(s, from, to) == Some(q),
    decreases q - from,
{
    if from < q {
        lemma_first_zip64_signature(s, from + 1, to, q);
    }
}

/// What the search in a range finds is the lowest offset of the range that holds the
/// signature.
pub proof fn lemma_first_zip64_signature_is_lowest(s: Seq<u8>, from: int, to: int)
    requires
        first_zip64_signature(s, from, to) is Some,
    ensures
        from <= first_zip64_signature(s, from, to)->0 <= to,
        zip64_signature_at(s, first_zip64_signature(s, from, to)->0),
        forall|j: int|
            from <= j < first_zip64_signature(s, from, to)->0 ==> !zip64_signature_at(s, j),
    decreases to - from + 1,
{
    if from <= to && !zip64_signature_at(s, from) {
        lemma_first_zip64_signature_is_lowest(s, from + 1, to);
    }
}

/// A search over a range is the search over its lower part and, where that finds
/// nothing, the search over the rest.
pub proof fn lemma_zip64_signature_split(s: Seq<u8>, from: int, mid: int, to: int)
    requires
        from <= mid + 1,
        mid <= to,
    ensures
        first_zip64_signature(s, from, to) == match first_zip64_signature(s, from, mid) {
            Some(q) => Some(q),
            None => first_zip64_signature(s, mid + 1, to),
        },
    decreases mid - from + 1,
{
    if from <= mid && !zip64_signature_at(s, from) {
        lemma_zip64_signature_split(s, from + 1, mid, to);
    }
}

/// Where the source holds 56 bytes at every offset of the range, reading in pieces
/// changes nothing: the search ends at the lowest offset of the range that holds the
/// signature, or finds none.
pub proof fn lemma_zip64_scan_in_range(s: Seq<u8>, pos: int, upper: int)
    requires
        0 <= pos,
        upper + 56 <= s.len(),
    ensures
        zip64_scan(s, pos, upper) == match first_zip64_signature(s, pos, upper) {
            Some(q) => Zip64Scan::Found(q),
            None => Zip64Scan::Missing,
        },
    decreases upper - pos + 1,
{
    if pos <= upper {
        let n = zip64_chunk_len(pos, upper);
        lemma_zip64_signature_split(s, pos, pos + n - 56, upper);
        if first_zip64_signature(s, pos, pos + n - 56) is None {
            lemma_zip64_scan_in_range(s, pos + n - 55, upper);
        }
    }
}

impl Zip64CentralDirectoryEnd {
    /// Reads the record from the start of `data`. Bytes after it are ignored.
    pub fn parse(data: &[u8]) -> (r: ZipResult<Zip64CentralDirectoryEnd>)
        ensures
            match r {
                Ok(v) => parse_zip64_eocd(data@) == Ok::<Zip64CentralDirectoryEnd, Fault>(v),
                Err(err) => parse_zip64_eocd(data@) == Err::<Zip64CentralDirectoryEnd, Fault>(
                    err@,
                ),
            },
    {
        if data.len() < 4 {
            return Err(truncated());
        }
        let magic: u32 = read_u32_le(data, 0);
        if magic != ZIP64_CENTRAL_DIRECTORY_END_SIGNATURE {
            return Err(ZipError::InvalidArchive("Invalid digital signature header"));
        }
        if data.len() < 56 {
            return Err(truncated());
        }
        let record_size: u64 = read_u64_le(data, 4);
        if record_size != 44 {
            return Err(
                ZipError::InvalidArchive("Invalid ZIP64 central directory end record size"),
            );
        }
        let version_made_by: u16 = read_u16_le(data, 12);
        let version_needed_to_extract: u16 = read_u16_le(data, 14);
        let disk_number: u32 = read_u32_le(data, 16);
        let disk_with_central_directory: u32 = read_u32_le(data, 20);
        let number_of_files_on_this_disk: u64 = read_u64_le(data, 24);
        let number_of_files: u64 = read_u64_le(data, 32);
        let central_directory_size: u64 = read_u64_le(data, 40);
        let central_directory_offset: u64 = read_u64_le(data, 48);
        Ok(
            Zip64CentralDirectoryEnd {
                version_made_by,
                version_needed_to_extract,
                disk_number,
                disk_with_central_directory,
                number_of_files_on_this_disk,
                number_of_files,
                central_directory_size,
                central_directory_offset,
            },
        )
    }

    /// Looks for the record from `nominal_offset` forwards up to `search_upper_bound`
    /// and reads it where the signature is first met. Returns the record and how far
    /// behind `nominal_offset` it stands.
    pub fn find_and_parse(data: &[u8], nominal_offset: u64, search_upper_bound: u64) -> (r:
        ZipResult<(Zip64CentralDirectoryEnd, u64)>)
        ensures
            match r {
                Ok(found) => find_zip64_eocd(data@, nominal_offset, search_upper_bound) == Ok::<
                    (Zip64CentralDirectoryEnd, u64),
                    Fault,
                >(found),
                Err(err) => find_zip64_eocd(data@, nominal_offset, search_upper_bound) == Err::<
                    (Zip64CentralDirectoryEnd, u64),
                    Fault,
                >(err@),
            },
    {
        let len: u64 = data.len() as u64;
        let mut pos: u64 = nominal_offset;
        while pos <= search_upper_bound
            invariant
                len == data@.len(),
                len <= usize::MAX,
                nominal_offset <= pos,
                zip64_scan(data@, nominal_offset as int, search_upper_bound as int) == zip64_scan(
                    data@,
                    pos as int,
                    search_upper_bound as int,
                ),
            decreases search_upper_bound - pos + 1,
        {
            let chunk: u64 = if search_upper_bound - pos >= 4040 {
                4096
            } else {
                56 + (search_upper_bound - pos)
            };
            if pos > len || chunk > len - pos {
                return Err(truncated());
            }
            let last: u64 = pos + chunk - 56;
            let mut at: u64 = pos;
            while at <= last
                invariant
                    len == data@.len(),
                    len <= usize::MAX,
                    nominal_offset <= pos <= search_upper_bound,
                    zip64_scan(data@, nominal_offset as int, search_upper_bound as int)
                        == zip64_scan(data@, pos as int, search_upper_bound as int),
                    last == pos + zip64_chunk_len(pos as int, search_upper_bound as int) - 56,
                    pos <= at <= last + 1,
                    last + 56 <= len,
                    forall|j: int| pos <= j < at ==> !zip64_signature_at(data@, j),
                decreases last - at + 1,
            {
                if read_u32_le(data, at as usize) == ZIP64_CENTRAL_DIRECTORY_END_SIGNATURE {
                    proof {
                        lemma_first_zip64_signature(data@, pos as int, last as int, at as int);
                    }
                    let record = slice_subrange(data, at as usize, at as usize + 56);
                    return match Zip64CentralDirectoryEnd::parse(record) {
                        Ok(footer) => Ok((footer, at - nominal_offset)),
                        Err(e) => Err(e),
                    };
                }
                at = at + 1;
            }
            proof {
                lemma_no_zip64_signature(data@, pos as int, last as int);
            }
            pos = last + 1;
        }
        Err(ZipError::InvalidArchive("Could not find ZIP64 central directory end"))
    }

    /// Appends the record to `writer`.
    pub fn write(&self, writer: &mut Vec<u8>) -> (r: ZipResult<()>)
        ensures
            r is Ok,
            final(writer)@ == old(writer)@ + zip64_eocd_bytes(*self),
    {
        write_u32_le(writer, ZIP64_CENTRAL_DIRECTORY_END_SIGNATURE);
        write_u64_le(writer, 44);
        write_u16_le(writer, self.version_made_by);
        write_u16_le(writer, self.version_needed_to_extract);
        write_u32_le(writer, self.disk_number);
        write_u32_le(writer, self.disk_with_central_directory);
        write_u64_le(writer, self.number_of_files_on_this_disk);
        write_u64_le(writer, self.number_of_files);
        write_u64_le(writer, self.central_directory_size);
        write_u64_le(writer, self.central_directory_offset);
        assert(writer@ =~= old(writer)@ + zip64_eocd_bytes(*self));
        Ok(())
    }
}

/// A ZIP64 record that was read from a byte sequence is written as the 56 bytes it was
/// read from.
pub proof fn lemma_zip64_eocd_parse_then_write(s: Seq<u8>)
    requires
        parse_zip64_eocd(s) is Ok,
    ensures
        zip64_eocd_bytes(parse_zip64_eocd(s)->Ok_0) == s.subrange(0, 56),
{
    lemma_u32_encoding_at(s, 0);
    lemma_u64_encoding_at(s, 4);
    lemma_u16_encoding_at(s, 12);
    lemma_u16_encoding_at(s, 14);
    lemma_u32_encoding_at(s, 16);
    lemma_u32_encoding_at(s, 20);
    lemma_u64_encoding_at(s, 24);
    lemma_u64_encoding_at(s, 32);
    lemma_u64_encoding_at(s, 40);
    lemma_u64_encoding_at(s, 48);
    assert(zip64_eocd_bytes(parse_zip64_eocd(s)->Ok_0) =~= s.subrange(0, 56));
}

/// A ZIP64 record is read back from the bytes it is written as, whatever follows them.
pub proof fn lemma_zip64_eocd_write_then_parse(v: Zip64CentralDirectoryEnd, rest: Seq<u8>)
    ensures
        parse_zip64_eocd(zip64_eocd_bytes(v) + rest) == Ok::<Zip64CentralDirectoryEnd, Fault>(v),
{
    broadcast use group_read_back;

    let s = zip64_eocd_bytes(v) + rest;
    assert(zip64_eocd_bytes(v).len() == 56);
    assert(u32_at(s, 0) == ZIP64_CENTRAL_DIRECTORY_END_SIGNATURE);
    assert(u64_at(s, 4) == 44);
}

} // verus!
