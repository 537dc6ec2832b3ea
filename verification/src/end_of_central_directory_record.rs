//! The end of central directory record, found by the strict search: a signature
//! counts only where the length of the comment that follows it reaches exactly to the
//! end of the archive.
//!
//! ```text
//! end of central dir signature    4 bytes  (0x06054b50)
//! number of this disk             2 bytes
//! number of the disk with the
//! start of the central directory  2 bytes
//! total number of entries in the
//! central directory on this disk  2 bytes
//! total number of entries in
//! the central directory           2 bytes
//! size of the central directory   4 bytes
//! offset of start of central
//! directory with respect to
//! the starting disk number        4 bytes
//! .ZIP file comment length        2 bytes
//! .ZIP file comment       (variable size)
//! ```

use vstd::prelude::*;
use podio::{LittleEndian, ReadPodExt, WritePodExt};
use crate::codec::{u16_at, u16_le_bytes, u32_at, u32_le_bytes};
use crate::records::{
    eocd_bytes, eocd_scan_floor, eocd_signature_at, parse_eocd, CentralDirectoryEndView,
};
use crate::result::{Fault, ZipError, ZipResult};

verus! {

/// Reads a 16-bit integer at `pos` with `podio::ReadPodExt::read_u16`, which fills two
/// bytes from the rest of the buffer and fails where the rest is shorter.
#[verifier::external_body]
fn pod_read_u16(buf: &[u8], pos: usize) -> (r: Result<u16, std::io::Error>)
    requires
        pos <= buf@.len(),
    ensures
        r is Ok <==> pos + 2 <= buf@.len(),
        r is Ok ==> r->Ok_0 == u16_at(buf@, pos as int),
{
    let mut rest = &buf[pos..];
    rest.read_u16::<LittleEndian>()
}

/// Reads a 32-bit integer at `pos` with `podio::ReadPodExt::read_u32`, which fills
/// four bytes from the rest of the buffer and fails where the rest is shorter.
#[verifier::external_body]
fn pod_read_u32(buf: &[u8], pos: usize) -> (r: Result<u32, std::io::Error>)
    requires
        pos <= buf@.len(),
    ensures
        r is Ok <==> pos + 4 <= buf@.len(),
        r is Ok ==> r->Ok_0 == u32_at(buf@, pos as int),
{
    let mut rest = &buf[pos..];
    rest.read_u32::<LittleEndian>()
}

/// Reads `len` bytes at `pos` with `podio::ReadPodExt::read_exact`, which fails where
/// the rest of the buffer is shorter.
#[verifier::external_body]
fn pod_read_exact(buf: &[u8], pos: usize, len: usize) -> (r: Result<Vec<u8>, std::io::Error>)
    requires
        pos <= buf@.len(),
    ensures
        r is Ok <==> pos + len <= buf@.len(),
        r is Ok ==> r->Ok_0@ == buf@.subrange(pos as int, pos + len),
{
    let mut rest = &buf[pos..];
    ReadPodExt::read_exact(&mut rest, len)
}

/// Appends a 16-bit integer with `podio::WritePodExt::write_u16`, which hands its two
/// little-endian bytes to the vector; a vector takes every write.
#[verifier::external_body]
fn pod_write_u16(out: &mut Vec<u8>, v: u16)
    ensures
        final(out)@ == old(out)@ + u16_le_bytes(v),
{
    let _ = WritePodExt::write_u16::<LittleEndian>(out, v);
}

/// Appends a 32-bit integer with `podio::WritePodExt::write_u32`, which hands its four
/// little-endian bytes to the vector; a vector takes every write.
#[verifier::external_body]
fn pod_write_u32(out: &mut Vec<u8>, v: u32)
    ensures
        final(out)@ == old(out)@ + u32_le_bytes(v),
{
    let _ = WritePodExt::write_u32::<LittleEndian>(out, v);
}

/// The end of central directory record.
#[derive(Debug)]
#[allow(non_camel_case_types)]
pub struct END_OF_CENTRAL_DIRECTORY_RECORD {
    pub disk_number: u16,
    pub disk_with_central_directory: u16,
    pub number_of_files_on_this_disk: u16,
    pub number_of_files: u16,
    pub central_directory_size: u32,
    pub central_directory_offset: u32,
    pub zip_file_comment: Vec<u8>,
}

impl View for END_OF_CENTRAL_DIRECTORY_RECORD {
    type V = CentralDirectoryEndView;

    open spec fn view(&self) -> CentralDirectoryEndView {
        CentralDirectoryEndView {
            disk_number: self.disk_number,
            disk_with_central_directory: self.disk_with_central_directory,
            number_of_files_on_this_disk: self.number_of_files_on_this_disk,
            number_of_files: self.number_of_files,
            central_directory_size: self.central_directory_size,
            central_directory_offset: self.central_directory_offset,
            zip_file_comment: self.zip_file_comment@,
        }
    }
}

/// True when the record can stand at `pos`: the signature stands there, and the
/// comment whose length the record gives ends where the archive ends.
pub open spec fn record_fits_at(s: Seq<u8>, pos: int) -> bool {
    &&& eocd_signature_at(s, pos)
    &&& pos + 22 <= s.len()
    &&& u16_at(s, pos + 20) == s.len() - pos - 22
}

/// True when `pos` is the highest offset in the scanned range at which the record can
/// stand.
pub open spec fn is_record_position(s: Seq<u8>, pos: int) -> bool {
    &&& eocd_scan_floor(s.len() as int) <= pos <= s.len() - 22
    &&& record_fits_at(s, pos)
    &&& forall|q: int| pos < q <= s.len() - 22 ==> !record_fits_at(s, q)
}

/// True when the record can stand at some offset of the scanned range.
pub open spec fn has_record(s: Seq<u8>) -> bool {
    exists|q: int| eocd_scan_floor(s.len() as int) <= q <= s.len() - 22 && record_fits_at(s, q)
}

impl END_OF_CENTRAL_DIRECTORY_RECORD {
    /// The number of bytes of the record without its comment:
    /// 4 + 2 + 2 + 2 + 2 + 4 + 4 + 2.
    pub fn size() -> (r: u64)
        ensures
            r == 22,
    {
        22
    }

    pub fn signature() -> (r: u32)
        ensures
            r == 0x06054b50,
    {
        0x06054b50
    }

    pub fn name() -> (r: &'static str)
        ensures
            r@ == "[End of central directory record]"@,
    {
        "[End of central directory record]"
    }

    /// Looks for the record from the end of the archive backwards, over the last
    /// 22 + 65535 bytes.
    pub fn find(data: &[u8]) -> (r: ZipResult<u64>)
        ensures
            !has_record(data@) ==> r is Err && r->Err_0@ == Fault::InvalidArchive(
                "Could not find central directory end"@,
            ),
            forall|p: int| #[trigger] is_record_position(data@, p) ==> r is Ok && r->Ok_0 == p,
            r is Ok ==> is_record_position(data@, r->Ok_0 as int),
    {
        let len: usize = data.len();
        if len < 22 {
            return Err(ZipError::InvalidArchive("Could not find central directory end"));
        }
        let floor: usize = if len > 22 + 65535 {
            len - 22 - 65535
        } else {
            0
        };
        let mut pos: usize = len - 22;
        loop
            invariant
                len == data@.len(),
                len >= 22,
                floor == eocd_scan_floor(len as int),
                floor <= pos <= len - 22,
                forall|q: int| pos < q <= len - 22 ==> !record_fits_at(data@, q),
            ensures
                forall|q: int| floor <= q <= len - 22 ==> !record_fits_at(data@, q),
            decreases pos,
        {
            let magic = pod_read_u32(data, pos);
            let comment_length = pod_read_u16(data, pos + 20);
            match (magic, comment_length) {
                (Ok(magic), Ok(comment_length)) => {
                    if magic == END_OF_CENTRAL_DIRECTORY_RECORD::signature() && len - pos - 22
                        == comment_length as usize {
                        assert(is_record_position(data@, pos as int));
                        assert forall|p: int| #[trigger]
                            is_record_position(data@, p) implies p == pos by {
                            if p < pos {
                                assert(record_fits_at(data@, pos as int));
                            }
                        }
                        return Ok(pos as u64);
                    }
                },
                _ => {},
            }
            if pos == floor {
                break ;
            }
            pos = pos - 1;
        }
        assert(!has_record(data@));
        assert forall|p: int| !#[trigger] is_record_position(data@, p) by {}
        Err(ZipError::InvalidArchive("Could not find central directory end"))
    }

    /// Finds and reads the record. Returns it with the offset it stands at.
    pub fn load(data: &[u8]) -> (r: ZipResult<(Self, u64)>)
        ensures
            !has_record(data@) ==> r is Err && r->Err_0@ == Fault::InvalidArchive(
                "Could not find central directory end"@,
            ),
            forall|p: int| #[trigger]
                is_record_position(data@, p) ==> r is Ok && r->Ok_0.1 == p && parse_eocd(
                    data@.subrange(p, data@.len() as int),
                ) == Ok::<CentralDirectoryEndView, Fault>(r->Ok_0.0@),
    {
        let pos = match END_OF_CENTRAL_DIRECTORY_RECORD::find(data) {
            Err(e) => {
                return Err(e);
            },
            Ok(pos) => pos,
        };
        assert(is_record_position(data@, pos as int));
        assert(record_fits_at(data@, pos as int));
        assert forall|p: int| #[trigger] is_record_position(data@, p) implies p == pos by {
            if p < pos {
                assert(record_fits_at(data@, pos as int));
            } else if p > pos {
                assert(record_fits_at(data@, p));
            }
        }
        let total: usize = data.len();
        let at: usize = pos as usize;
        assert(at + 22 <= total);
        let ghost tail = data@.subrange(at as int, data@.len() as int);
        proof {
            crate::codec::lemma_at_suffix(data@, at as int);
        }
        let disk_number: u16 = match pod_read_u16(data, at + 4) {
            Ok(v) => v,
            Err(e) => {
                return Err(ZipError::Io(e));
            },
        };
        let disk_with_central_directory: u16 = match pod_read_u16(data, at + 6) {
            Ok(v) => v,
            Err(e) => {
                return Err(ZipError::Io(e));
            },
        };
        let number_of_files_on_this_disk: u16 = match pod_read_u16(data, at + 8) {
            Ok(v) => v,
            Err(e) => {
                return Err(ZipError::Io(e));
            },
        };
        let number_of_files: u16 = match pod_read_u16(data, at + 10) {
            Ok(v) => v,
            Err(e) => {
                return Err(ZipError::Io(e));
            },
        };
        let central_directory_size: u32 = match pod_read_u32(data, at + 12) {
            Ok(v) => v,
            Err(e) => {
                return Err(ZipError::Io(e));
            },
        };
        let central_directory_offset: u32 = match pod_read_u32(data, at + 16) {
            Ok(v) => v,
            Err(e) => {
                return Err(ZipError::Io(e));
            },
        };
        let zip_file_comment_length: u16 = match pod_read_u16(data, at + 20) {
            Ok(v) => v,
            Err(e) => {
                return Err(ZipError::Io(e));
            },
        };
        let zip_file_comment = match pod_read_exact(
            data,
            at + 22,
            zip_file_comment_length as usize,
        ) {
            Ok(v) => v,
            Err(e) => {
                return Err(ZipError::Io(e));
            },
        };
        assert(zip_file_comment@ =~= tail.subrange(22, 22 + zip_file_comment_length));
        Ok(
            (
                END_OF_CENTRAL_DIRECTORY_RECORD {
                    disk_number,
                    disk_with_central_directory,
                    number_of_files_on_this_disk,
                    number_of_files,
                    central_directory_size,
                    central_directory_offset,
                    zip_file_comment,
                },
                pos,
            ),
        )
    }

    /// Appends the record to `writer`.
    pub fn write(&self, writer: &mut Vec<u8>) -> (r: ZipResult<()>)
        ensures
            r is Ok,
            final(writer)@ == old(writer)@ + eocd_bytes(self@),
    {
        pod_write_u32(writer, END_OF_CENTRAL_DIRECTORY_RECORD::signature());
        pod_write_u16(writer, self.disk_number);
        pod_write_u16(writer, self.disk_with_central_directory);
        pod_write_u16(writer, self.number_of_files_on_this_disk);
        pod_write_u16(writer, self.number_of_files);
        pod_write_u32(writer, self.central_directory_size);
        pod_write_u32(writer, self.central_directory_offset);
        pod_write_u16(writer, (self.zip_file_comment.len() % 65536) as u16);
        writer.extend_from_slice(self.zip_file_comment.as_slice());
        assert(writer@ =~= old(writer)@ + eocd_bytes(self@));
        Ok(())
    }
}

} // verus!
