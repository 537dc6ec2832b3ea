//! Types for reading ZIP archives

use vstd::prelude::*;
use vstd::slice::slice_subrange;
use std::sync::Arc;
use crate::compression::{method_of_code, CompressionMethod};
use crate::cp437::{cp437_string, from_cp437};
use crate::extra::{walk_extra, walk_extra_field, ExtraFields};
use crate::headers::{
    parse_cdh, parse_lfh, CentralDirectoryHeader, CentralDirectoryHeaderView, LocalFileHeader,
    LocalFileHeaderView,
};
use crate::path::{is_enclosed, mangled};
use crate::records::CENTRAL_DIRECTORY_HEADER_SIGNATURE;
use crate::names::{
    name_index_get, name_index_insert, name_index_keys, name_index_map, name_index_new,
    name_index_order, names_listed, NameIndex,
};
use crate::records::{
    eocd_too_small, find_eocd, find_zip64_eocd, parse_locator, CentralDirectoryEnd,
    CentralDirectoryEndView, Zip64CentralDirectoryEnd, Zip64CentralDirectoryEndLocator,
};
use crate::aes::{aes_content, aes_derived, aes_password_accepted, AesReader, AesReaderValid};
use crate::codec::{read_u16_le, read_u32_le, u16_at, u32_at};
use crate::compression::method_supported;
use crate::crc32::{check_end, checked_end, Crc32Reader};
use crate::decode::{decode as decode_payload, decoded};
use crate::records::LOCAL_FILE_HEADER_SIGNATURE;
use crate::result::{truncated, Fault, InvalidPassword, ZipError, ZipResult, PASSWORD_REQUIRED};
use crate::text::{decode_utf8_lossy, utf8_lossy};
use vstd::utf8::{decode_utf8, valid_utf8};
use crate::types::{
    system_of_code, AesMode, AesVendorVersion, AtomicU64, DateTime, System, ZipFileData,
    ZipFileDataView,
};
use crate::zipcrypto::{
    decrypted, decrypted_payload, password_accepted, ZipCryptoReader, ZipCryptoReaderValid,
    ZipCryptoValidator,
};

verus! {

/// True when bit 0 of the general purpose flags is set: the entry is encrypted.
pub open spec fn flag_encrypted(flags: u16) -> bool {
    flags as int % 2 == 1
}

/// True when bit 3 of the general purpose flags is set: sizes and checksum follow the
/// data in a data descriptor.
pub open spec fn flag_data_descriptor(flags: u16) -> bool {
    (flags as int / 8) % 2 == 1
}

/// True when bit 11 of the general purpose flags is set: name and comment are UTF-8.
pub open spec fn flag_utf8(flags: u16) -> bool {
    (flags as int / 2048) % 2 == 1
}

/// The text that the bytes of a name or comment stand for: UTF-8 where the flag says
/// so, code page 437 otherwise. Bytes that are valid UTF-8 stand for the characters
/// that they encode; in others, what is not valid is replaced.
pub open spec fn decode_text(utf8: bool, bytes: Seq<u8>) -> Seq<char> {
    if utf8 {
        if valid_utf8(bytes) {
            decode_utf8(bytes)
        } else {
            utf8_lossy(bytes)
        }
    } else {
        cp437_string(bytes)
    }
}

/// A text that was written as UTF-8 and marked as such is read as it was written,
/// whatever characters it holds.
pub proof fn lemma_utf8_text_is_read_back(chars: Seq<char>)
    ensures
        valid_utf8(vstd::utf8::encode_utf8(chars)),
        decode_text(true, vstd::utf8::encode_utf8(chars)) == chars,
{
    vstd::utf8::encode_utf8_valid_utf8(chars);
    vstd::utf8::encode_utf8_decode_utf8(chars);
}

/// The text that is read from valid UTF-8 holds the bytes that it was read from: it
/// encodes to them again.
pub proof fn lemma_utf8_text_keeps_its_bytes(bytes: Seq<u8>)
    requires
        valid_utf8(bytes),
    ensures
        vstd::utf8::encode_utf8(decode_text(true, bytes)) == bytes,
{
    vstd::utf8::decode_utf8_encode_utf8(bytes);
}

/// The fields that the extra field can change, as the fixed part of a header gives
/// them.
pub open spec fn initial_extra_fields(
    uncompressed_size: u32,
    compressed_size: u32,
    header_start: u64,
    compression_method: u16,
) -> ExtraFields {
    ExtraFields {
        uncompressed_size: uncompressed_size as u64,
        compressed_size: compressed_size as u64,
        header_start,
        large_file: false,
        aes_mode: None,
        compression_method: method_of_code(compression_method),
    }
}

/// The fields of a description that the extra field can change.
pub open spec fn extra_fields_of(v: ZipFileDataView) -> ExtraFields {
    ExtraFields {
        uncompressed_size: v.uncompressed_size,
        compressed_size: v.compressed_size,
        header_start: v.header_start,
        large_file: v.large_file,
        aes_mode: v.aes_mode,
        compression_method: v.compression_method,
    }
}

/// A description with the fields that the extra field can change replaced.
pub open spec fn with_extra_fields(v: ZipFileDataView, f: ExtraFields) -> ZipFileDataView {
    ZipFileDataView {
        uncompressed_size: f.uncompressed_size,
        compressed_size: f.compressed_size,
        header_start: f.header_start,
        large_file: f.large_file,
        aes_mode: f.aes_mode,
        compression_method: f.compression_method,
        ..v
    }
}

/// The description of the entry that a central directory header stands for, in an
/// archive whose offsets are shifted by `archive_offset`.
///
/// An extra field that is cut short is taken up to where it is cut. An entry that is
/// marked as AES-encrypted needs an AES record, and the shifted offset of its local
/// header has to fit in 64 bits.
pub open spec fn entry_of_header(
    h: CentralDirectoryHeaderView,
    archive_offset: u64,
    central_header_start: u64,
) -> Result<ZipFileDataView, Fault> {
    let utf8 = flag_utf8(h.flags);
    let w = walk_extra(
        h.extra_field,
        0,
        initial_extra_fields(
            h.uncompressed_size,
            h.compressed_size,
            h.relative_offset as u64,
            h.compression_method,
        ),
    );
    if w.fault is Some && w.fault != Some(Fault::Io) {
        Err(w.fault->0)
    } else if w.fields.compression_method == CompressionMethod::Aes && w.fields.aes_mode is None {
        Err(Fault::InvalidArchive("AES encryption without AES extra data field"@))
    } else if w.fields.header_start + archive_offset > u64::MAX {
        Err(Fault::InvalidArchive("Archive header is too large"@))
    } else {
        Ok(
            ZipFileDataView {
                system: system_of_code((h.version_made_by as int / 256) as u8),
                version_made_by: (h.version_made_by as int % 256) as u8,
                encrypted: flag_encrypted(h.flags),
                using_data_descriptor: flag_data_descriptor(h.flags),
                compression_method: w.fields.compression_method,
                compression_level: None,
                last_modified_time: DateTime::spec_from_msdos(h.last_mod_date, h.last_mod_time),
                crc32: h.crc32,
                compressed_size: w.fields.compressed_size,
                uncompressed_size: w.fields.uncompressed_size,
                file_name: decode_text(utf8, h.file_name),
                file_name_raw: h.file_name,
                extra_field: h.extra_field,
                file_comment: decode_text(utf8, h.file_comment),
                header_start: (w.fields.header_start + archive_offset) as u64,
                central_header_start,
                external_attributes: h.external_attributes,
                large_file: w.fields.large_file,
                aes_mode: w.fields.aes_mode,
            },
        )
    }
}

/// The entry whose central directory header stands at `pos`, and the offset behind
/// that header.
pub open spec fn entry_at(s: Seq<u8>, pos: int, archive_offset: u64) -> Result<
    (ZipFileDataView, int),
    Fault,
> {
    if pos < 0 || pos > s.len() {
        Err(Fault::Io)
    } else {
        match parse_cdh(s.subrange(pos, s.len() as int)) {
            Err(f) => Err(f),
            Ok(h) => match entry_of_header(h, archive_offset, pos as u64) {
                Err(f) => Err(f),
                Ok(e) => Ok((e, pos + h.len())),
            },
        }
    }
}

/// The error for an archive that uses a feature which is rejected by design.
pub fn unsupported_zip_error<T>(detail: &'static str) -> (r: ZipResult<T>)
    ensures
        r is Err && r->Err_0@ == Fault::UnsupportedArchive(detail@),
{
    Err(ZipError::UnsupportedArchive(detail))
}

/// Decodes a name or comment.
fn decode(utf8: bool, bytes: &[u8]) -> (r: String)
    ensures
        r@ == decode_text(utf8, bytes@),
        utf8 && valid_utf8(bytes@) ==> r@ == decode_utf8(bytes@),
{
    if utf8 {
        decode_utf8_lossy(bytes)
    } else {
        from_cp437(bytes)
    }
}

/// Reads the three flags that this library acts on.
fn read_flags(flags: u16) -> (r: (bool, bool, bool))
    ensures
        r.0 == flag_encrypted(flags),
        r.1 == flag_utf8(flags),
        r.2 == flag_data_descriptor(flags),
{
    assert((flags & 1 == 1) == (flags % 2 == 1)) by (bit_vector);
    assert((flags & (1u16 << 11) != 0) == ((flags / 2048) % 2 == 1)) by (bit_vector);
    assert((flags & (1u16 << 3) != 0) == ((flags / 8) % 2 == 1)) by (bit_vector);
    (flags & 1 == 1, flags & (1u16 << 11) != 0, flags & (1u16 << 3) != 0)
}

/// Splits the version field of a header into the system and the version of the
/// producer.
fn read_version_made_by(version_made_by: u16) -> (r: (System, u8))
    ensures
        r.0 == system_of_code((version_made_by as int / 256) as u8),
        r.1 == (version_made_by as int % 256) as u8,
{
    assert(version_made_by >> 8 == version_made_by / 256) by (bit_vector);
    assert(version_made_by & 0xff == version_made_by % 256) by (bit_vector);
    let high: u16 = version_made_by >> 8;
    let low: u16 = version_made_by & 0xff;
    (System::from_u8(high as u8), low as u8)
}

/// Applies the records of an entry's extra field to its description.
///
/// Returns the error that stopped the walk over the records, if one did. A record
/// that is cut short gives an I/O error, which callers take as the end of the field.
pub fn parse_extra_field(file: &mut ZipFileData) -> (r: ZipResult<()>)
    ensures
        final(file)@ == with_extra_fields(
            old(file)@,
            walk_extra(old(file)@.extra_field, 0, extra_fields_of(old(file)@)).fields,
        ),
        match r {
            Ok(_) => walk_extra(old(file)@.extra_field, 0, extra_fields_of(old(file)@)).fault
                is None,
            Err(e) => walk_extra(old(file)@.extra_field, 0, extra_fields_of(old(file)@)).fault
                == Some(e@),
        },
{
    let init = ExtraFields {
        uncompressed_size: file.uncompressed_size,
        compressed_size: file.compressed_size,
        header_start: file.header_start,
        large_file: file.large_file,
        aes_mode: file.aes_mode,
        compression_method: file.compression_method,
    };
    let (fields, fault) = walk_extra_field(file.extra_field.as_slice(), init);
    file.uncompressed_size = fields.uncompressed_size;
    file.compressed_size = fields.compressed_size;
    file.header_start = fields.header_start;
    file.large_file = fields.large_file;
    file.aes_mode = fields.aes_mode;
    file.compression_method = fields.compression_method;
    match fault {
        None => Ok(()),
        Some(e) => Err(e),
    }
}

/// Builds the description of the entry that a central directory header stands for.
pub fn central_header_to_zip_file_inner(
    header: CentralDirectoryHeader,
    archive_offset: u64,
    central_header_start: u64,
) -> (r: ZipResult<ZipFileData>)
    ensures
        match r {
            Ok(e) => entry_of_header(header@, archive_offset, central_header_start) == Ok::<
                ZipFileDataView,
                Fault,
            >(e@),
            Err(err) => entry_of_header(header@, archive_offset, central_header_start) == Err::<
                ZipFileDataView,
                Fault,
            >(err@),
        },
        r is Ok ==> r->Ok_0@.file_name_raw == header@.file_name,
        r is Ok && flag_utf8(header@.flags) && valid_utf8(header@.file_name)
            ==> r->Ok_0@.file_name == decode_utf8(header@.file_name),
        r is Ok && flag_utf8(header@.flags) && valid_utf8(header@.file_comment)
            ==> r->Ok_0@.file_comment == decode_utf8(header@.file_comment),
        r is Ok && !flag_utf8(header@.flags) ==> r->Ok_0@.file_name == cp437_string(
            header@.file_name,
        ) && r->Ok_0@.file_comment == cp437_string(header@.file_comment),
{
    let (encrypted, is_utf8, using_data_descriptor) = read_flags(header.flags);
    let (system, version_made_by) = read_version_made_by(header.version_made_by);
    let file_name = decode(is_utf8, header.file_name.as_slice());
    let file_comment = decode(is_utf8, header.file_comment.as_slice());
    let ghost h = header@;

    // Construct the result
    let mut result = ZipFileData {
        system,
        version_made_by,
        encrypted,
        using_data_descriptor,
        compression_method: CompressionMethod::from_u16(header.compression_method),
        compression_level: None,
        last_modified_time: DateTime::from_msdos(header.last_mod_date, header.last_mod_time),
        crc32: header.crc32,
        compressed_size: header.compressed_size as u64,
        uncompressed_size: header.uncompressed_size as u64,
        file_name,
        file_name_raw: header.file_name,
        extra_field: header.extra_field,
        file_comment,
        header_start: header.relative_offset as u64,
        central_header_start,
        data_start: AtomicU64::new(0),
        external_attributes: header.external_attributes,
        large_file: false,
        aes_mode: None,
    };
    assert(extra_fields_of(result@) == initial_extra_fields(
        h.uncompressed_size,
        h.compressed_size,
        h.relative_offset as u64,
        h.compression_method,
    ));

    match parse_extra_field(&mut result) {
        Ok(_) => {},
        Err(e) => {
            if !e.is_io() {
                return Err(e);
            }
        },
    }

    let aes_enabled = result.compression_method == CompressionMethod::Aes;
    if aes_enabled && result.aes_mode.is_none() {
        return Err(ZipError::InvalidArchive("AES encryption without AES extra data field"));
    }
    // Account for shifted zip offsets.

    match result.header_start.checked_add(archive_offset) {
        None => {
            return Err(ZipError::InvalidArchive("Archive header is too large"));
        },
        Some(shifted) => {
            result.header_start = shifted;
        },
    }
    Ok(result)
}

/// Parse a central directory entry to collect the information for the file.
///
/// The header is read at `pos`; the second part of the result is the offset behind
/// it.
pub fn central_header_to_zip_file(data: &[u8], pos: u64, archive_offset: u64) -> (r: ZipResult<
    (ZipFileData, u64),
>)
    ensures
        match r {
            Ok(found) => entry_at(data@, pos as int, archive_offset) == Ok::<
                (ZipFileDataView, int),
                Fault,
            >((found.0@, found.1 as int)),
            Err(err) => entry_at(data@, pos as int, archive_offset) == Err::<
                (ZipFileDataView, int),
                Fault,
            >(err@),
        },
{
    if pos > data.len() as u64 {
        return Err(crate::result::truncated());
    }
    let start: usize = pos as usize;
    let header = match CentralDirectoryHeader::parse(slice_subrange(data, start, data.len())) {
        Ok(h) => h,
        Err(e) => {
            return Err(e);
        },
    };
    let next: u64 = pos + header.len();
    match central_header_to_zip_file_inner(header, archive_offset, pos) {
        Ok(file) => Ok((file, next)),
        Err(e) => Err(e),
    }
}

/// The ZIP64 locator of an archive whose end of central directory record has a
/// comment of `comment_len` bytes: the 20 bytes before that record, if they start
/// with the locator's signature.
pub open spec fn zip64_locator(s: Seq<u8>, comment_len: int) -> Option<
    Zip64CentralDirectoryEndLocator,
> {
    let at = s.len() - 42 - comment_len;
    if at < 0 {
        None
    } else {
        match parse_locator(s.subrange(at, at + 20)) {
            Ok(locator) => Some(locator),
            Err(_) => None,
        }
    }
}

/// The shift of the archive's offsets, the offset of the central directory and the
/// number of entries, for an archive whose end of central directory record `footer`
/// stands at `cde_start_pos`.
///
/// Without a ZIP64 locator the shift is what is left of `cde_start_pos` after the size
/// and the offset of the central directory. With one, the ZIP64 record is looked for
/// from where the locator says it is up to 60 bytes before `cde_start_pos`, and the
/// shift is how far behind it was found.
pub open spec fn directory_counts(s: Seq<u8>, footer: CentralDirectoryEndView, cde_start_pos: u64)
    -> Result<(u64, u64, usize), Fault> {
    match zip64_locator(s, footer.zip_file_comment.len() as int) {
        None => {
            let archive_offset = cde_start_pos - footer.central_directory_size
                - footer.central_directory_offset;
            if archive_offset < 0 {
                Err(Fault::InvalidArchive("Invalid central directory size or offset"@))
            } else {
                Ok(
                    (
                        archive_offset as u64,
                        (footer.central_directory_offset + archive_offset) as u64,
                        footer.number_of_files_on_this_disk as usize,
                    ),
                )
            }
        },
        Some(locator) => {
            if !eocd_too_small(footer) && footer.disk_number as u32
                != locator.disk_with_central_directory {
                Err(
                    Fault::UnsupportedArchive(
                        "Support for multi-disk files is not implemented"@,
                    ),
                )
            } else if cde_start_pos < 60 {
                Err(Fault::InvalidArchive("File cannot contain ZIP64 central directory end"@))
            } else {
                match find_zip64_eocd(
                    s,
                    locator.end_of_central_directory_offset,
                    (cde_start_pos - 60) as u64,
                ) {
                    Err(f) => Err(f),
                    Ok((footer64, archive_offset)) => {
                        if footer64.disk_number != footer64.disk_with_central_directory {
                            Err(
                                Fault::UnsupportedArchive(
                                    "Support for multi-disk files is not implemented"@,
                                ),
                            )
                        } else if footer64.central_directory_offset + archive_offset > u64::MAX {
                            Err(
                                Fault::InvalidArchive(
                                    "Invalid central directory size or offset"@,
                                ),
                            )
                        } else {
                            Ok(
                                (
                                    archive_offset,
                                    (footer64.central_directory_offset + archive_offset) as u64,
                                    footer64.number_of_files as usize,
                                ),
                            )
                        }
                    },
                }
            }
        },
    }
}

/// The descriptions of `count` entries whose central directory headers stand one
/// behind the other from `pos` on.
pub open spec fn read_directory(s: Seq<u8>, pos: int, count: nat, archive_offset: u64) -> Result<
    Seq<ZipFileDataView>,
    Fault,
>
    decreases count,
{
    if count == 0 {
        Ok(Seq::empty())
    } else {
        match entry_at(s, pos, archive_offset) {
            Err(f) => Err(f),
            Ok((e, next)) => match read_directory(s, next, (count - 1) as nat, archive_offset) {
                Err(f) => Err(f),
                Ok(rest) => Ok(seq![e] + rest),
            },
        }
    }
}

/// What an archive holds: the descriptions of its entries in the order of the central
/// directory, the shift of its offsets, and its comment.
pub struct ArchiveView {
    pub files: Seq<ZipFileDataView>,
    pub offset: u64,
    pub comment: Seq<u8>,
}

/// What opening an archive gives.
pub open spec fn open_archive(s: Seq<u8>) -> Result<ArchiveView, Fault> {
    match find_eocd(s) {
        Err(f) => Err(f),
        Ok((footer, cde_start_pos)) => {
            if !eocd_too_small(footer) && footer.disk_number
                != footer.disk_with_central_directory {
                Err(
                    Fault::UnsupportedArchive(
                        "Support for multi-disk files is not implemented"@,
                    ),
                )
            } else {
                match directory_counts(s, footer, cde_start_pos) {
                    Err(f) => Err(f),
                    Ok((archive_offset, directory_start, number_of_files)) => {
                        match read_directory(
                            s,
                            directory_start as int,
                            number_of_files as nat,
                            archive_offset,
                        ) {
                            Err(f) => Err(f),
                            Ok(files) => Ok(
                                ArchiveView {
                                    files,
                                    offset: archive_offset,
                                    comment: footer.zip_file_comment,
                                },
                            ),
                        }
                    },
                }
            }
        },
    }
}

/// The descriptions that a sequence of entries holds.
pub open spec fn entry_views(files: Seq<ZipFileData>) -> Seq<ZipFileDataView> {
    Seq::new(files.len(), |i: int| files[i]@)
}

/// True when `index` holds, for every name that an entry has, the position of the last
/// entry with that name, and nothing else.
pub open spec fn names_match(files: Seq<ZipFileDataView>, index: Map<Seq<char>, usize>) -> bool {
    &&& forall|i: int|
        0 <= i < files.len() ==> index.dom().contains(#[trigger] files[i].file_name) && i
            <= index[files[i].file_name]
    &&& forall|name: Seq<char>| #[trigger]
        index.dom().contains(name) ==> index[name] < files.len()
            && files[index[name] as int].file_name == name
}

/// True when `position` is the last entry with the given name.
pub open spec fn is_last_named(files: Seq<ZipFileDataView>, name: Seq<char>, position: int)
    -> bool {
    &&& 0 <= position < files.len()
    &&& files[position].file_name == name
    &&& forall|j: int| position < j < files.len() ==> files[j].file_name != name
}

/// True when some entry has the given name.
pub open spec fn has_name(files: Seq<ZipFileDataView>, name: Seq<char>) -> bool {
    exists|i: int| 0 <= i < files.len() && #[trigger] files[i].file_name == name
}

/// The names of entries, each once, in the order in which they come first.
pub open spec fn first_names(files: Seq<ZipFileDataView>) -> Seq<Seq<char>>
    decreases files.len(),
{
    if files.len() == 0 {
        Seq::empty()
    } else {
        let before = first_names(files.drop_last());
        if has_name(files.drop_last(), files.last().file_name) {
            before
        } else {
            before.push(files.last().file_name)
        }
    }
}

/// The names of entries in the order in which they come first are the names that
/// the entries have, each once.
pub proof fn lemma_first_names(files: Seq<ZipFileDataView>)
    ensures
        forall|i: int, j: int|
            0 <= i < j < first_names(files).len() ==> first_names(files)[i] != first_names(
                files,
            )[j],
        forall|i: int|
            0 <= i < first_names(files).len() ==> has_name(files, #[trigger] first_names(files)[i]),
        forall|k: int|
            0 <= k < files.len() ==> first_names(files).contains((#[trigger] files[k]).file_name),
    decreases files.len(),
{
    if files.len() > 0 {
        let init = files.drop_last();
        let last = files.last().file_name;
        let before = first_names(init);
        let all = first_names(files);
        lemma_first_names(init);
        assert forall|i: int| 0 <= i < all.len() implies has_name(files, #[trigger] all[i]) by {
            if i < before.len() {
                assert(has_name(init, before[i]));
                let k = choose|k: int| 0 <= k < init.len() && #[trigger] init[k].file_name
                    == before[i];
                assert(files[k].file_name == all[i]);
            } else {
                assert(files[files.len() - 1].file_name == all[i]);
            }
        }
        assert forall|i: int, j: int| 0 <= i < j < all.len() implies all[i] != all[j] by {
            if j == before.len() {
                assert(has_name(init, before[i]));
            }
        }
        assert forall|k: int| 0 <= k < files.len() implies all.contains(
            (#[trigger] files[k]).file_name,
        ) by {
            if k < init.len() {
                assert(init[k] == files[k]);
                assert(before.contains(init[k].file_name));
                let i = choose|i: int| 0 <= i < before.len() && before[i] == init[k].file_name;
                assert(all[i] == files[k].file_name);
            } else if has_name(init, last) {
                let m = choose|m: int| 0 <= m < init.len() && #[trigger] init[m].file_name == last;
                assert(before.contains(init[m].file_name));
                let i = choose|i: int| 0 <= i < before.len() && before[i] == init[m].file_name;
                assert(all[i] == last);
            } else {
                assert(all[all.len() - 1] == last);
            }
        }
    }
}

/// The number of entries to make room for before the central directory is read: the
/// number that the archive declares, unless that is more than the bytes before the end
/// of central directory record could hold.
pub open spec fn capacity_hint(number_of_files: usize, cde_start_pos: u64) -> usize {
    if number_of_files > cde_start_pos {
        0
    } else {
        number_of_files
    }
}

/// Extract immutable data from `ZipArchive` to make it cheap to clone
#[derive(Debug)]
pub struct Shared {
    files: Vec<ZipFileData>,
    names_map: NameIndex,
    offset: u64,
    comment: Vec<u8>,
}

impl Shared {
    /// What the shared part of an archive holds.
    pub closed spec fn view(&self) -> ArchiveView {
        ArchiveView {
            files: entry_views(self.files@),
            offset: self.offset,
            comment: self.comment@,
        }
    }

    /// The position that the index holds for each name.
    pub closed spec fn positions(&self) -> Map<Seq<char>, usize> {
        name_index_map(self.names_map)
    }

    /// The names of the index in its order.
    pub closed spec fn listing(&self) -> Seq<Seq<char>> {
        name_index_order(self.names_map)
    }

    /// The index from names to positions agrees with the entries, and keeps their
    /// names in the order in which they come first.
    pub closed spec fn wf(&self) -> bool {
        &&& names_match(entry_views(self.files@), self.positions())
        &&& self.listing() == first_names(entry_views(self.files@))
    }
}

/// Takes another share of a counted reference with `Arc::clone`.
#[verifier::external_body]
fn share(shared: &Arc<Shared>) -> (r: Arc<Shared>)
    ensures
        r == *shared,
{
    Arc::clone(shared)
}

/// ZIP archive reader over an archive that is held in memory.
///
/// The entries and the comment are shared between the clones of a reader.
#[derive(Debug)]
pub struct ZipArchive {
    reader: Vec<u8>,
    shared: Arc<Shared>,
}

impl Clone for ZipArchive {
    fn clone(&self) -> (r: Self)
        ensures
            r@ == self@,
            r.source() == self.source(),
    {
        proof {
            use_type_invariant(self);
        }
        ZipArchive { reader: self.reader.clone(), shared: share(&self.shared) }
    }
}

impl ZipArchive {
    #[verifier::type_invariant]
    spec fn names_indexed(self) -> bool {
        self.shared.wf()
    }

    /// What the archive holds.
    pub closed spec fn view(&self) -> ArchiveView {
        self.shared@
    }

    /// The bytes of the archive.
    pub closed spec fn source(&self) -> Seq<u8> {
        self.reader@
    }

    /// Get the directory start offset and number of files. This is done in a
    /// separate function to ease the control flow design.
    pub fn get_directory_counts(data: &[u8], footer: &CentralDirectoryEnd, cde_start_pos: u64)
        -> (r: ZipResult<(u64, u64, usize)>)
        ensures
            match r {
                Ok(counts) => directory_counts(data@, footer@, cde_start_pos) == Ok::<
                    (u64, u64, usize),
                    Fault,
                >(counts),
                Err(err) => directory_counts(data@, footer@, cde_start_pos) == Err::<
                    (u64, u64, usize),
                    Fault,
                >(err@),
            },
    {
        // See if there's a ZIP64 footer. The ZIP64 locator if present will
        // have its signature 20 bytes in front of the standard footer. The
        // standard footer, in turn, is 22+N bytes large, where N is the
        // comment length.
        let comment_len: usize = footer.zip_file_comment.len();
        let zip64locator = if data.len() >= 42 && data.len() - 42 >= comment_len {
            let at: usize = data.len() - 42 - comment_len;
            match Zip64CentralDirectoryEndLocator::parse(slice_subrange(data, at, at + 20)) {
                Ok(loc) => Some(loc),
                Err(_) => None,
            }
        } else {
            // Empty Zip files will have nothing else so this might be fine. If
            // not, we'll find out soon.
            None
        };
        match zip64locator {
            None => {
                // Some zip files have data prepended to them, resulting in the
                // offsets all being too small. Get the amount of error by comparing
                // the actual file position we found the CDE at with the offset
                // recorded in the CDE.
                let archive_offset = match cde_start_pos.checked_sub(
                    footer.central_directory_size as u64,
                ) {
                    None => None,
                    Some(x) => x.checked_sub(footer.central_directory_offset as u64),
                };
                match archive_offset {
                    None => Err(
                        ZipError::InvalidArchive("Invalid central directory size or offset"),
                    ),
                    Some(archive_offset) => {
                        let directory_start = footer.central_directory_offset as u64
                            + archive_offset;
                        let number_of_files = footer.number_of_files_on_this_disk as usize;
                        Ok((archive_offset, directory_start, number_of_files))
                    },
                }
            },
            Some(locator64) => {
                // If we got here, this is indeed a ZIP64 file.
                if !footer.record_too_small() && footer.disk_number as u32
                    != locator64.disk_with_central_directory {
                    return Err(
                        ZipError::UnsupportedArchive(
                            "Support for multi-disk files is not implemented",
                        ),
                    );
                }
                // We know where the ZIP64 central-directory-end structure *should*
                // be, but there may be junk at the beginning of the file. Therefore
                // we search for it, forwards.

                let search_upper_bound = match cde_start_pos.checked_sub(60) {
                    None => {
                        return Err(
                            ZipError::InvalidArchive(
                                "File cannot contain ZIP64 central directory end",
                            ),
                        );
                    },
                    Some(bound) => bound,
                };
                let (footer64, archive_offset) = match Zip64CentralDirectoryEnd::find_and_parse(
                    data,
                    locator64.end_of_central_directory_offset,
                    search_upper_bound,
                ) {
                    Err(e) => {
                        return Err(e);
                    },
                    Ok(found) => found,
                };
                if footer64.disk_number != footer64.disk_with_central_directory {
                    return Err(
                        ZipError::UnsupportedArchive(
                            "Support for multi-disk files is not implemented",
                        ),
                    );
                }
                let directory_start = match footer64.central_directory_offset.checked_add(
                    archive_offset,
                ) {
                    None => {
                        return Err(
                            ZipError::InvalidArchive("Invalid central directory size or offset"),
                        );
                    },
                    Some(start) => start,
                };
                Ok(
                    (
                        archive_offset,
                        directory_start,
                        #[verifier::truncate]
                        (footer64.number_of_files as usize),
                    ),
                )
            },
        }
    }

    /// The number of entries to make room for before the central directory is read.
    /// It never exceeds the offset of the end of central directory record, so a count
    /// that the archive cannot hold reserves nothing.
    pub fn file_capacity(number_of_files: usize, cde_start_pos: u64) -> (r: usize)
        ensures
            r == capacity_hint(number_of_files, cde_start_pos),
            r <= cde_start_pos,
            r <= number_of_files,
    {
        if number_of_files as u64 > cde_start_pos {
            0
        } else {
            number_of_files
        }
    }

    /// Read a ZIP archive, collecting the files it contains
    ///
    /// This uses the central directory record of the ZIP file, and ignores local file
    /// headers.
    #[verifier::loop_isolation(false)]
    pub fn new(reader: Vec<u8>) -> (r: ZipResult<ZipArchive>)
        ensures
            match r {
                Ok(archive) => open_archive(reader@) == Ok::<ArchiveView, Fault>(archive@)
                    && archive.source() == reader@,
                Err(err) => open_archive(reader@) == Err::<ArchiveView, Fault>(err@),
            },
            reader@.len() < 22 ==> r is Err && r->Err_0@ == Fault::InvalidArchive(
                "Invalid zip header"@,
            ),
    {
        let (footer, cde_start_pos) = match CentralDirectoryEnd::find_and_parse(
            reader.as_slice(),
        ) {
            Err(e) => {
                return Err(e);
            },
            Ok(found) => found,
        };
        if !footer.record_too_small() && footer.disk_number
            != footer.disk_with_central_directory {
            return Err(
                ZipError::UnsupportedArchive("Support for multi-disk files is not implemented"),
            );
        }
        let (archive_offset, directory_start, number_of_files) =
            match ZipArchive::get_directory_counts(reader.as_slice(), &footer, cde_start_pos) {
            Err(e) => {
                return Err(e);
            },
            Ok(counts) => counts,
        };

        // If the parsed number of files is greater than the offset then
        // something fishy is going on and we shouldn't trust number_of_files.
        let file_capacity = ZipArchive::file_capacity(number_of_files, cde_start_pos);

        let mut files: Vec<ZipFileData> = Vec::with_capacity(file_capacity);
        let mut names_map = name_index_new(file_capacity);
        let mut pos: u64 = directory_start;
        let mut i: usize = 0;
        let ghost s = reader@;
        while i < number_of_files
            invariant
                s == reader@,
                i <= number_of_files,
                files@.len() == i,
                names_match(entry_views(files@), name_index_map(names_map)),
                name_index_order(names_map) == first_names(entry_views(files@)),
                read_directory(s, directory_start as int, number_of_files as nat, archive_offset)
                    == prepend_entries(
                    entry_views(files@),
                    read_directory(s, pos as int, (number_of_files - i) as nat, archive_offset),
                ),
            decreases number_of_files - i,
        {
            let ghost before = entry_views(files@);
            let ghost index_before = name_index_map(names_map);
            let ghost order_before = name_index_order(names_map);
            let (file, next) = match central_header_to_zip_file(
                reader.as_slice(),
                pos,
                archive_offset,
            ) {
                Err(e) => {
                    return Err(e);
                },
                Ok(found) => found,
            };
            let ghost e = file@;
            name_index_insert(&mut names_map, file.file_name.clone(), files.len());
            files.push(file);
            proof {
                let after = entry_views(files@);
                assert(after =~= before.push(e));
                let rest = read_directory(
                    s,
                    next as int,
                    (number_of_files - i - 1) as nat,
                    archive_offset,
                );
                if rest is Ok {
                    assert(before + (seq![e] + rest->Ok_0) =~= after + rest->Ok_0);
                }
                assert(name_index_order(names_map) == first_names(after)) by {
                    assert(after.drop_last() =~= before);
                    assert(after.last() == e);
                    if index_before.dom().contains(e.file_name) {
                        assert(before[index_before[e.file_name] as int].file_name == e.file_name);
                    }
                    if has_name(before, e.file_name) {
                        let k = choose|k: int|
                            0 <= k < before.len() && #[trigger] before[k].file_name == e.file_name;
                        assert(index_before.dom().contains(before[k].file_name));
                    }
                }
                assert(names_match(after, name_index_map(names_map))) by {
                    let index = name_index_map(names_map);
                    assert(index == index_before.insert(e.file_name, i));
                    assert forall|k: int| 0 <= k < after.len() implies index.dom().contains(
                        #[trigger] after[k].file_name,
                    ) && k <= index[after[k].file_name] by {
                        if k < i {
                            assert(after[k] == before[k]);
                        }
                    }
                    assert forall|name: Seq<char>| #[trigger]
                        index.dom().contains(name) implies index[name] < after.len()
                        && after[index[name] as int].file_name == name by {
                        if name != e.file_name {
                            assert(index_before.dom().contains(name));
                            assert(after[index[name] as int] == before[index[name] as int]);
                        }
                    }
                }
            }
            pos = next;
            i = i + 1;
        }
        let shared = Shared { files, names_map, offset: archive_offset, comment: footer.zip_file_comment };
        proof {
            assert(entry_views(shared.files@) + Seq::<ZipFileDataView>::empty() =~= entry_views(
                shared.files@,
            ));
        }
        Ok(ZipArchive { reader, shared: Arc::new(shared) })
    }

    /// Number of files contained in this zip.
    pub fn len(&self) -> (r: usize)
        ensures
            r == self@.files.len(),
    {
        self.shared.files.len()
    }

    /// Whether this zip archive contains no files
    pub fn is_empty(&self) -> (r: bool)
        ensures
            r == (self@.files.len() == 0),
    {
        self.len() == 0
    }

    /// Get the offset from the beginning of the underlying reader that this zip begins
    /// at, in bytes.
    ///
    /// Normally this value is zero, but if the zip has arbitrary data prepended to it,
    /// then this value will be the size of that prepended data.
    pub fn offset(&self) -> (r: u64)
        ensures
            r == self@.offset,
    {
        self.shared.offset
    }

    /// Get the comment of the zip archive.
    pub fn comment(&self) -> (r: &[u8])
        ensures
            r@ == self@.comment,
    {
        self.shared.comment.as_slice()
    }

    /// Returns the names of the files and directories in this archive, each name
    /// once, in the order in which the names come first in the archive.
    pub fn file_names(&self) -> (r: Vec<String>)
        ensures
            r@.len() == first_names(self@.files).len(),
            forall|i: int| 0 <= i < r@.len() ==> (#[trigger] r@[i])@ == first_names(self@.files)[i],
            forall|i: int, j: int| 0 <= i < j < r@.len() ==> r@[i]@ != r@[j]@,
            forall|i: int| 0 <= i < r@.len() ==> has_name(self@.files, #[trigger] r@[i]@),
            forall|k: int|
                0 <= k < self@.files.len() ==> names_listed(
                    r@,
                    (#[trigger] self@.files[k]).file_name,
                ),
    {
        proof {
            use_type_invariant(self);
        }
        let names = name_index_keys(&self.shared.names_map);
        proof {
            let files = self@.files;
            let listed = first_names(files);
            assert(self.shared.listing() == listed);
            lemma_first_names(files);
            assert forall|i: int| 0 <= i < names@.len() implies has_name(
                files,
                #[trigger] names@[i]@,
            ) by {
                assert(names@[i]@ == listed[i]);
            }
            assert forall|i: int, j: int| 0 <= i < j < names@.len() implies names@[i]@
                != names@[j]@ by {
                assert(names@[i]@ == listed[i]);
                assert(names@[j]@ == listed[j]);
            }
            assert forall|k: int| 0 <= k < files.len() implies names_listed(
                names@,
                (#[trigger] files[k]).file_name,
            ) by {
                assert(listed.contains(files[k].file_name));
                let i = choose|i: int| 0 <= i < listed.len() && listed[i] == files[k].file_name;
                assert(names@[i]@ == listed[i]);
            }
        }
        names
    }

    /// The position of the last entry with the given name, if there is one.
    pub fn index_for_name(&self, name: &str) -> (r: Option<usize>)
        ensures
            match r {
                Some(position) => is_last_named(self@.files, name@, position as int),
                None => !has_name(self@.files, name@),
            },
    {
        proof {
            use_type_invariant(self);
        }
        name_index_get(&self.shared.names_map, name)
    }

    /// The bytes of the archive.
    pub fn as_bytes(&self) -> (r: &[u8])
        ensures
            r@ == self.source(),
    {
        self.reader.as_slice()
    }

    /// Unwrap and return the bytes of the archive.
    pub fn into_inner(self) -> (r: Vec<u8>)
        ensures
            r@ == self.source(),
    {
        self.reader
    }
}

/// The entries read so far, followed by what reading the rest gives.
pub open spec fn prepend_entries(
    done: Seq<ZipFileDataView>,
    rest: Result<Seq<ZipFileDataView>, Fault>,
) -> Result<Seq<ZipFileDataView>, Fault> {
    match rest {
        Ok(more) => Ok(done + more),
        Err(f) => Err(f),
    }
}

/// An archive of less than 22 bytes cannot hold an end of central directory record
/// and is refused as such.
pub proof fn lemma_short_archive(s: Seq<u8>)
    requires
        s.len() < 22,
    ensures
        open_archive(s) == Err::<ArchiveView, Fault>(
            Fault::InvalidArchive("Invalid zip header"@),
        ),
{
}

/// What a reader that is limited to `len` bytes delivers from the offset `start` of a
/// source: the bytes that the source holds there, up to `len` of them.
pub open spec fn limited(s: Seq<u8>, start: int, len: int) -> Seq<u8> {
    if start >= s.len() {
        Seq::empty()
    } else if start + len >= s.len() {
        s.subrange(start, s.len() as int)
    } else {
        s.subrange(start, start + len)
    }
}

/// Where the data of an entry starts: behind the local file header that stands at
/// `header_start`, with the lengths of name and extra field that this header gives.
/// They may differ from those of the central directory.
pub open spec fn local_data_start(s: Seq<u8>, header_start: u64) -> Result<u64, Fault> {
    if header_start + 4 > s.len() {
        Err(Fault::Io)
    } else if u32_at(s, header_start as int) != LOCAL_FILE_HEADER_SIGNATURE {
        Err(Fault::InvalidArchive("Invalid local file header"@))
    } else if header_start + 30 > s.len() {
        Err(Fault::Io)
    } else {
        let start = header_start + 30 + u16_at(s, header_start + 26) + u16_at(
            s,
            header_start + 28,
        );
        if start > u64::MAX {
            Err(Fault::Io)
        } else {
            Ok(start as u64)
        }
    }
}

/// Finds the data of an entry: visits its local file header, notes where the data
/// starts in the entry's description, and returns that offset with the bytes that a
/// reader limited to the compressed size delivers from there.
pub fn find_content<'a>(data: &ZipFileData, reader: &'a [u8]) -> (r: ZipResult<(u64, &'a [u8])>)
    ensures
        match r {
            Ok(found) => local_data_start(reader@, data.header_start) == Ok::<u64, Fault>(found.0)
                && found.1@ == limited(reader@, found.0 as int, data.compressed_size as int),
            Err(err) => local_data_start(reader@, data.header_start) == Err::<u64, Fault>(err@),
        },
{
    let total: u64 = reader.len() as u64;
    // Parse local header
    if data.header_start > total || total - data.header_start < 4 {
        return Err(truncated());
    }
    let at: usize = data.header_start as usize;
    let signature: u32 = read_u32_le(reader, at);
    if signature != LOCAL_FILE_HEADER_SIGNATURE {
        return Err(ZipError::InvalidArchive("Invalid local file header"));
    }
    if total - data.header_start < 30 {
        return Err(truncated());
    }
    let file_name_length: u64 = read_u16_le(reader, at + 26) as u64;
    let extra_field_length: u64 = read_u16_le(reader, at + 28) as u64;
    let magic_and_header: u64 = 4 + 22 + 2 + 2;
    let lengths: u64 = magic_and_header + file_name_length + extra_field_length;
    let data_start: u64 = match data.header_start.checked_add(lengths) {
        None => {
            return Err(truncated());
        },
        Some(start) => start,
    };
    data.data_start.store(data_start);
    if data_start >= total {
        return Ok((data_start, slice_subrange(reader, 0, 0)));
    }
    let from: usize = data_start as usize;
    let to: usize = if data.compressed_size >= total - data_start {
        reader.len()
    } else {
        from + data.compressed_size as usize
    };
    Ok((data_start, slice_subrange(reader, from, to)))
}

/// The source of an entry's payload behind the decryption that the entry needs.
pub enum CryptoReader<'a> {
    Plaintext(&'a [u8]),
    ZipCrypto(ZipCryptoReaderValid<'a>),
    Aes { reader: AesReaderValid<'a>, vendor_version: AesVendorVersion },
}

impl<'a> CryptoReader<'a> {
    /// What is left of the limited source that this reader was made on: all of it
    /// for plain text, and what follows the header for an encrypted payload.
    pub open spec fn rest(&self) -> Seq<u8> {
        match self {
            CryptoReader::Plaintext(r) => r@,
            CryptoReader::ZipCrypto(r) => r.payload().subrange(12, r.payload().len() as int),
            CryptoReader::Aes { reader, .. } => reader.payload().skip(
                reader.mode().spec_key_length() as int / 2 + 2,
            ),
        }
    }

    /// What reading this reader to its end gives. Only the reading of AES encrypted
    /// data can fail: at its end the data is authenticated.
    pub open spec fn plain(&self) -> Result<Seq<u8>, Fault> {
        match self {
            CryptoReader::Plaintext(r) => Ok(r@),
            CryptoReader::ZipCrypto(r) => Ok(
                decrypted(r.first_keys(), r.payload()).subrange(12, r.payload().len() as int),
            ),
            CryptoReader::Aes { reader, .. } => aes_content(
                reader.mode(),
                reader.keys(),
                reader.size(),
                reader.payload(),
            ),
        }
    }

    /// True when the data is encrypted using AE2, which carries no checksum.
    pub open spec fn ae2(&self) -> bool {
        self matches CryptoReader::Aes { vendor_version, .. } && vendor_version
            == AesVendorVersion::Ae2
    }

    /// Consumes this decoder, returning the underlying reader.
    pub fn into_inner(self) -> (r: &'a [u8])
        ensures
            r@ == self.rest(),
    {
        match self {
            CryptoReader::Plaintext(r) => r,
            CryptoReader::ZipCrypto(r) => r.into_inner(),
            CryptoReader::Aes { reader, .. } => reader.into_inner(),
        }
    }

    /// Returns `true` if the data is encrypted using AE2.
    pub fn is_ae2_encrypted(&self) -> (r: bool)
        ensures
            r == self.ae2(),
    {
        match self {
            CryptoReader::Aes { vendor_version: AesVendorVersion::Ae2, .. } => true,
            _ => false,
        }
    }

    /// Reads the decrypted payload to its end.
    pub fn read_to_end(&self) -> (r: ZipResult<Vec<u8>>)
        ensures
            match r {
                Ok(bytes) => self.plain() == Ok::<Seq<u8>, Fault>(bytes@),
                Err(e) => self.plain() == Err::<Seq<u8>, Fault>(e@),
            },
    {
        match self {
            CryptoReader::Plaintext(r) => {
                let bytes = crate::codec::copy_range(r, 0, r.len());
                assert(bytes@ =~= r@);
                Ok(bytes)
            },
            CryptoReader::ZipCrypto(r) => Ok(r.read_to_end()),
            CryptoReader::Aes { reader, .. } => reader.read_to_end(),
        }
    }
}

/// How the making of a reader for an entry's payload ends.
pub enum CryptoOutcome {
    /// The entry cannot be read.
    Failed(Fault),
    /// The entry is encrypted, and no password or a wrong one was given.
    InvalidPassword,
    /// The reader was made: what reading it to its end gives, and whether the data
    /// is AE-2 encrypted and so carries no checksum.
    Reader { plain: Result<Seq<u8>, Fault>, ae2: bool },
}

/// The byte that the header of an encrypted payload is checked against: taken from
/// the time of last modification where the checksum follows the data, and from the
/// checksum otherwise.
pub open spec fn validator_for(crc32: u32, last_modified_time: DateTime, using_data_descriptor: bool)
    -> ZipCryptoValidator {
    if using_data_descriptor {
        ZipCryptoValidator::InfoZipMsdosTime(last_modified_time.spec_timepart() as u16)
    } else {
        ZipCryptoValidator::PkzipCrc32(crc32)
    }
}

/// The reader that a payload gets, by password and AES parameters:
/// without either, the payload is plain text; AES parameters without a password are
/// answered as a wrong password; a password without AES parameters is checked against
/// the header of the traditional cipher; with both, the password is checked against
/// the value that follows the salt of the AES payload.
pub open spec fn crypto_outcome(
    compression_method: CompressionMethod,
    crc32: u32,
    last_modified_time: DateTime,
    using_data_descriptor: bool,
    payload: Seq<u8>,
    password: Option<Seq<u8>>,
    aes_info: Option<(AesMode, AesVendorVersion)>,
    compressed_size: u64,
) -> CryptoOutcome {
    if !method_supported(compression_method) {
        CryptoOutcome::Failed(Fault::UnsupportedArchive("Compression method not supported"@))
    } else if password is Some && aes_info is Some {
        let (mode, version) = aes_info->0;
        if payload.len() < mode.spec_key_length() / 2 + 2 {
            CryptoOutcome::Failed(Fault::Io)
        } else if aes_password_accepted(mode, password->0, payload) {
            CryptoOutcome::Reader {
                plain: aes_content(
                    mode,
                    aes_derived(mode, password->0, payload),
                    compressed_size,
                    payload,
                ),
                ae2: version == AesVendorVersion::Ae2,
            }
        } else {
            CryptoOutcome::InvalidPassword
        }
    } else if password is Some {
        if payload.len() < 12 {
            CryptoOutcome::Failed(Fault::Io)
        } else if password_accepted(
            password->0,
            payload,
            validator_for(crc32, last_modified_time, using_data_descriptor),
        ) {
            CryptoOutcome::Reader {
                plain: Ok(decrypted_payload(password->0, payload)),
                ae2: false,
            }
        } else {
            CryptoOutcome::InvalidPassword
        }
    } else if aes_info is Some {
        CryptoOutcome::InvalidPassword
    } else {
        CryptoOutcome::Reader { plain: Ok(payload), ae2: false }
    }
}

/// True when `reader` is the reader that a payload gets for a password and AES
/// parameters: which of the three kinds it is, and what it has left of the payload.
///
/// Without a password the payload is read as it is, and all of it is left. With a
/// password and AES parameters the reader is one for AES of the vendor version given,
/// with what follows salt and check value left. With a password alone it is one for
/// the traditional cipher, with what follows the 12 bytes of its header left.
pub open spec fn made_for(
    reader: CryptoReader,
    payload: Seq<u8>,
    password: Option<Seq<u8>>,
    aes_info: Option<(AesMode, AesVendorVersion)>,
) -> bool {
    if password is None {
        reader is Plaintext && reader.rest() == payload
    } else if aes_info is Some {
        let (mode, version) = aes_info->0;
        &&& reader matches CryptoReader::Aes { vendor_version, .. }
        &&& vendor_version == version
        &&& reader.rest() == payload.skip(mode.spec_key_length() as int / 2 + 2)
    } else {
        reader is ZipCrypto && reader.rest() == payload.subrange(12, payload.len() as int)
    }
}

/// The bytes of an optional password.
pub open spec fn password_view(password: Option<&[u8]>) -> Option<Seq<u8>> {
    match password {
        Some(p) => Some(p@),
        None => None,
    }
}

/// Makes the reader for an entry's payload: plain, or behind the cipher that the
/// entry uses where a password is given and passes the check.
pub fn make_crypto_reader<'a>(
    compression_method: CompressionMethod,
    crc32: u32,
    last_modified_time: DateTime,
    using_data_descriptor: bool,
    reader: &'a [u8],
    password: Option<&[u8]>,
    aes_info: Option<(AesMode, AesVendorVersion)>,
    compressed_size: u64,
) -> (r: ZipResult<Result<CryptoReader<'a>, InvalidPassword>>)
    ensures
        match crypto_outcome(
            compression_method,
            crc32,
            last_modified_time,
            using_data_descriptor,
            reader@,
            password_view(password),
            aes_info,
            compressed_size,
        ) {
            CryptoOutcome::Failed(f) => r is Err && r->Err_0@ == f,
            CryptoOutcome::InvalidPassword => r is Ok && r->Ok_0 is Err,
            CryptoOutcome::Reader { plain, ae2 } => r is Ok && r->Ok_0 is Ok
                && r->Ok_0->Ok_0.plain() == plain && r->Ok_0->Ok_0.ae2() == ae2,
        },
        r is Ok && r->Ok_0 is Ok ==> made_for(
            r->Ok_0->Ok_0,
            reader@,
            password_view(password),
            aes_info,
        ),
{
    if !compression_method.is_supported() {
        return Err(ZipError::UnsupportedArchive("Compression method not supported"));
    }
    let reader = match (password, aes_info) {
        (Some(password), Some((aes_mode, vendor_version))) => {
            match AesReader::new(reader, aes_mode, compressed_size).validate(password) {
                Err(e) => {
                    return Err(e);
                },
                Ok(None) => {
                    return Ok(Err(InvalidPassword));
                },
                Ok(Some(r)) => CryptoReader::Aes { reader: r, vendor_version },
            }
        },
        (Some(password), None) => {
            let validator = if using_data_descriptor {
                ZipCryptoValidator::InfoZipMsdosTime(last_modified_time.timepart())
            } else {
                ZipCryptoValidator::PkzipCrc32(crc32)
            };
            match ZipCryptoReader::new(reader, password).validate(validator) {
                Err(e) => {
                    return Err(e);
                },
                Ok(None) => {
                    return Ok(Err(InvalidPassword));
                },
                Ok(Some(r)) => CryptoReader::ZipCrypto(r),
            }
        },
        (None, Some(_)) => {
            return Ok(Err(InvalidPassword));
        },
        (None, None) => CryptoReader::Plaintext(reader),
    };
    Ok(Ok(reader))
}

/// What reading a payload to its end gives: the decoded bytes where their checksum is
/// the stored one, a checksum error where it is not, and an I/O error where the
/// payload is damaged.
pub open spec fn checked_content(
    method: CompressionMethod,
    plain: Result<Seq<u8>, Fault>,
    stored: u32,
    ae2_encrypted: bool,
) -> Result<Seq<u8>, Fault> {
    match plain {
        Err(f) => Err(f),
        Ok(payload) => match decoded(method, payload) {
            None => Err(Fault::Io),
            Some(bytes) => match checked_end(bytes, stored, ae2_encrypted) {
                None => Ok(bytes),
                Some((expected, actual)) => Err(Fault::Crc32Mismatch { expected, actual }),
            },
        },
    }
}

/// The decoder that stands between an entry's payload and its reader.
pub enum ZipFileReader<'a> {
    NoReader,
    Raw(&'a [u8]),
    Stored(Crc32Reader<CryptoReader<'a>>),
    Deflated(Crc32Reader<CryptoReader<'a>>),
    Bzip2(Crc32Reader<CryptoReader<'a>>),
    Zstd(Crc32Reader<CryptoReader<'a>>),
}

impl<'a> ZipFileReader<'a> {
    /// What reading to the end gives.
    pub open spec fn content(&self) -> Result<Seq<u8>, Fault> {
        match self {
            ZipFileReader::NoReader => Err(Fault::Io),
            ZipFileReader::Raw(r) => Ok(r@),
            ZipFileReader::Stored(r) => checked_content(
                CompressionMethod::Stored,
                r.source().plain(),
                r.stored(),
                r.unchecked(),
            ),
            ZipFileReader::Deflated(r) => checked_content(
                CompressionMethod::Deflated,
                r.source().plain(),
                r.stored(),
                r.unchecked(),
            ),
            ZipFileReader::Bzip2(r) => checked_content(
                CompressionMethod::Bzip2,
                r.source().plain(),
                r.stored(),
                r.unchecked(),
            ),
            ZipFileReader::Zstd(r) => checked_content(
                CompressionMethod::Zstd,
                r.source().plain(),
                r.stored(),
                r.unchecked(),
            ),
        }
    }

    /// What is left of the limited source below the decoder.
    pub open spec fn rest(&self) -> Seq<u8> {
        match self {
            ZipFileReader::NoReader => Seq::empty(),
            ZipFileReader::Raw(r) => r@,
            ZipFileReader::Stored(r) => r.source().rest(),
            ZipFileReader::Deflated(r) => r.source().rest(),
            ZipFileReader::Bzip2(r) => r.source().rest(),
            ZipFileReader::Zstd(r) => r.source().rest(),
        }
    }

    /// Reads one decoder to its end and checks what it delivered.
    fn read_checked(method: CompressionMethod, reader: &Crc32Reader<CryptoReader<'a>>) -> (r:
        ZipResult<Vec<u8>>)
        requires
            method_supported(method),
        ensures
            match r {
                Ok(bytes) => checked_content(
                    method,
                    reader.source().plain(),
                    reader.stored(),
                    reader.unchecked(),
                ) == Ok::<Seq<u8>, Fault>(bytes@),
                Err(err) => checked_content(
                    method,
                    reader.source().plain(),
                    reader.stored(),
                    reader.unchecked(),
                ) == Err::<Seq<u8>, Fault>(err@),
            },
    {
        let plain = match reader.get_ref().read_to_end() {
            Err(e) => {
                return Err(e);
            },
            Ok(plain) => plain,
        };
        let bytes = match decode_payload(method, plain.as_slice()) {
            Err(e) => {
                return Err(e);
            },
            Ok(bytes) => bytes,
        };
        match check_end(bytes.as_slice(), reader.expected(), reader.is_unchecked()) {
            Err(e) => Err(e),
            Ok(_) => Ok(bytes),
        }
    }

    /// Reads the entry to its end.
    pub fn read_to_end(&self) -> (r: ZipResult<Vec<u8>>)
        requires
            !(self is NoReader),
        ensures
            match r {
                Ok(bytes) => self.content() == Ok::<Seq<u8>, Fault>(bytes@),
                Err(err) => self.content() == Err::<Seq<u8>, Fault>(err@),
            },
    {
        match self {
            ZipFileReader::NoReader => Err(truncated()),
            ZipFileReader::Raw(r) => {
                let bytes = crate::codec::copy_range(r, 0, r.len());
                assert(bytes@ =~= r@);
                Ok(bytes)
            },
            ZipFileReader::Stored(r) => ZipFileReader::read_checked(CompressionMethod::Stored, r),
            ZipFileReader::Deflated(r) => ZipFileReader::read_checked(
                CompressionMethod::Deflated,
                r,
            ),
            ZipFileReader::Bzip2(r) => ZipFileReader::read_checked(CompressionMethod::Bzip2, r),
            ZipFileReader::Zstd(r) => ZipFileReader::read_checked(CompressionMethod::Zstd, r),
        }
    }

    /// Consumes this decoder, returning the underlying reader.
    pub fn into_inner(self) -> (r: &'a [u8])
        requires
            !(self is NoReader),
        ensures
            r@ == self.rest(),
    {
        match self {
            ZipFileReader::NoReader => slice_subrange(&[], 0, 0),
            ZipFileReader::Raw(r) => r,
            ZipFileReader::Stored(r) => r.into_inner().into_inner(),
            ZipFileReader::Deflated(r) => r.into_inner().into_inner(),
            ZipFileReader::Bzip2(r) => r.into_inner().into_inner(),
            ZipFileReader::Zstd(r) => r.into_inner().into_inner(),
        }
    }
}

/// The decoder of an entry over a source that is already decrypted, without a check of
/// what it delivers.
pub enum ZipEntry<'a> {
    Stored(&'a [u8]),
    Deflated(&'a [u8]),
    Bzip2(&'a [u8]),
    Zstd(&'a [u8]),
}

impl<'a> ZipEntry<'a> {
    /// The compression method of the decoder.
    pub open spec fn method(&self) -> CompressionMethod {
        match self {
            ZipEntry::Stored(_) => CompressionMethod::Stored,
            ZipEntry::Deflated(_) => CompressionMethod::Deflated,
            ZipEntry::Bzip2(_) => CompressionMethod::Bzip2,
            ZipEntry::Zstd(_) => CompressionMethod::Zstd,
        }
    }

    /// The bytes that the decoder reads.
    pub open spec fn source(&self) -> Seq<u8> {
        match self {
            ZipEntry::Stored(r) => r@,
            ZipEntry::Deflated(r) => r@,
            ZipEntry::Bzip2(r) => r@,
            ZipEntry::Zstd(r) => r@,
        }
    }

    /// Puts the decoder for an entry's compression method on a source.
    pub fn from_data(data: &ZipFileData, source_handle: &'a [u8]) -> (r: ZipEntry<'a>)
        requires
            method_supported(data.compression_method),
        ensures
            r.method() == data.compression_method,
            r.source() == source_handle@,
    {
        match data.compression_method {
            CompressionMethod::Stored => ZipEntry::Stored(source_handle),
            CompressionMethod::Deflated => ZipEntry::Deflated(source_handle),
            CompressionMethod::Bzip2 => ZipEntry::Bzip2(source_handle),
            _ => ZipEntry::Zstd(source_handle),
        }
    }

    /// Reads the decoder to its end.
    pub fn read_to_end(&self) -> (r: ZipResult<Vec<u8>>)
        ensures
            match decoded(self.method(), self.source()) {
                Some(bytes) => r is Ok && r->Ok_0@ == bytes,
                None => r is Err && r->Err_0@ == Fault::Io,
            },
    {
        match self {
            ZipEntry::Stored(r) => decode_payload(CompressionMethod::Stored, r),
            ZipEntry::Deflated(r) => decode_payload(CompressionMethod::Deflated, r),
            ZipEntry::Bzip2(r) => decode_payload(CompressionMethod::Bzip2, r),
            ZipEntry::Zstd(r) => decode_payload(CompressionMethod::Zstd, r),
        }
    }
}

/// Puts the decoder for a compression method and the check of the checksum on a
/// decrypted source.
pub fn make_reader<'a>(compression_method: CompressionMethod, crc32: u32, reader: CryptoReader<'a>)
    -> (r: ZipFileReader<'a>)
    requires
        method_supported(compression_method),
    ensures
        !(r is NoReader),
        r.content() == checked_content(compression_method, reader.plain(), crc32, reader.ae2()),
        r.rest() == reader.rest(),
{
    let ae2_encrypted = reader.is_ae2_encrypted();
    match compression_method {
        CompressionMethod::Stored => ZipFileReader::Stored(
            Crc32Reader::new(reader, crc32, ae2_encrypted),
        ),
        CompressionMethod::Deflated => ZipFileReader::Deflated(
            Crc32Reader::new(reader, crc32, ae2_encrypted),
        ),
        CompressionMethod::Bzip2 => ZipFileReader::Bzip2(
            Crc32Reader::new(reader, crc32, ae2_encrypted),
        ),
        _ => ZipFileReader::Zstd(Crc32Reader::new(reader, crc32, ae2_encrypted)),
    }
}

/// The description of an entry as its reader holds it.
pub enum EntryData<'a> {
    /// The description of an entry of an archive.
    Borrowed(&'a ZipFileData),
    /// The description that was read from a local file header.
    Owned(ZipFileData),
}

impl<'a> EntryData<'a> {
    /// What the description says.
    pub open spec fn view(&self) -> ZipFileDataView {
        match self {
            EntryData::Borrowed(d) => d@,
            EntryData::Owned(d) => d@,
        }
    }

    /// The description.
    pub fn get(&self) -> (r: &ZipFileData)
        ensures
            r@ == self@,
    {
        match self {
            EntryData::Borrowed(d) => d,
            EntryData::Owned(d) => d,
        }
    }
}

/// A struct for reading a zip file
pub struct ZipFile<'a> {
    data: EntryData<'a>,
    data_start: u64,
    reader: ZipFileReader<'a>,
}

/// How the opening of an entry ends.
pub enum EntryOpening {
    /// The entry cannot be read.
    Failed(Fault),
    /// The entry is encrypted, and the password given did not pass the check.
    InvalidPassword,
    /// The entry was opened: where its data starts, and what reading it to its end
    /// gives.
    Ready { data_start: u64, content: Result<Seq<u8>, Fault> },
}

/// The opening of an entry of an archive with an optional password. A password that
/// is given for an entry that is not encrypted is left aside.
pub open spec fn entry_opening(s: Seq<u8>, d: ZipFileDataView, password: Option<Seq<u8>>)
    -> EntryOpening {
    if password is None && d.encrypted {
        EntryOpening::Failed(Fault::UnsupportedArchive(PASSWORD_REQUIRED@))
    } else {
        match local_data_start(s, d.header_start) {
            Err(f) => EntryOpening::Failed(f),
            Ok(start) => match crypto_outcome(
                d.compression_method,
                d.crc32,
                d.last_modified_time,
                d.using_data_descriptor,
                limited(s, start as int, d.compressed_size as int),
                if d.encrypted {
                    password
                } else {
                    None
                },
                d.aes_mode,
                d.compressed_size,
            ) {
                CryptoOutcome::Failed(f) => EntryOpening::Failed(f),
                CryptoOutcome::InvalidPassword => EntryOpening::InvalidPassword,
                CryptoOutcome::Reader { plain, ae2 } => EntryOpening::Ready {
                    data_start: start,
                    content: checked_content(d.compression_method, plain, d.crc32, ae2),
                },
            },
        }
    }
}

/// The opening of an entry without decryption, decoding and check: what reading it
/// gives is the stored payload.
pub open spec fn raw_opening(s: Seq<u8>, d: ZipFileDataView) -> EntryOpening {
    match local_data_start(s, d.header_start) {
        Err(f) => EntryOpening::Failed(f),
        Ok(start) => EntryOpening::Ready {
            data_start: start,
            content: Ok(limited(s, start as int, d.compressed_size as int)),
        },
    }
}

/// True when a reader was made as an opening says.
pub open spec fn opened_as(file: ZipFile, d: ZipFileDataView, opening: EntryOpening) -> bool {
    &&& opening is Ready
    &&& file.description() == d
    &&& file.spec_data_start() == opening->data_start
    &&& file.content() == opening->content
}

impl ZipArchive {
    /// The description of an entry.
    pub fn entry(&self, file_number: usize) -> (r: Option<&ZipFileData>)
        ensures
            r is Some <==> file_number < self@.files.len(),
            r is Some ==> r->0@ == self@.files[file_number as int],
    {
        if file_number < self.shared.files.len() {
            Some(&self.shared.files[file_number])
        } else {
            None
        }
    }

    /// Search for a file entry by name, decrypt with given password
    ///
    /// The check of the password looks at one byte, so one wrong password in 256
    /// passes it; what is then read is not the entry's content.
    pub fn by_name_decrypt<'a>(&'a self, name: &str, password: &[u8]) -> (r: ZipResult<
        Result<ZipFile<'a>, InvalidPassword>,
    >)
        ensures
            !has_name(self@.files, name@) ==> r is Err && r->Err_0@ == Fault::FileNotFound,
            forall|position: int| #[trigger]
                is_last_named(self@.files, name@, position) ==> (match entry_opening(
                    self.source(),
                    self@.files[position],
                    Some(password@),
                ) {
                    EntryOpening::Failed(f) => r is Err && r->Err_0@ == f,
                    EntryOpening::InvalidPassword => r is Ok && r->Ok_0 is Err,
                    opening => r is Ok && r->Ok_0 is Ok && opened_as(
                        r->Ok_0->Ok_0,
                        self@.files[position],
                        opening,
                    ),
                }),
    {
        self.by_name_with_optional_password(name, Some(password))
    }

    /// Search for a file entry by name
    pub fn by_name<'a>(&'a self, name: &str) -> (r: ZipResult<ZipFile<'a>>)
        ensures
            !has_name(self@.files, name@) ==> r is Err && r->Err_0@ == Fault::FileNotFound,
            forall|position: int| #[trigger]
                is_last_named(self@.files, name@, position) ==> (match entry_opening(
                    self.source(),
                    self@.files[position],
                    None,
                ) {
                    EntryOpening::Failed(f) => r is Err && r->Err_0@ == f,
                    EntryOpening::InvalidPassword => r is Err && r->Err_0@
                        == Fault::UnsupportedArchive(PASSWORD_REQUIRED@),
                    opening => r is Ok && opened_as(r->Ok_0, self@.files[position], opening),
                }),
    {
        match self.by_name_with_optional_password(name, None) {
            Err(e) => Err(e),
            Ok(Err(_)) => Err(ZipError::UnsupportedArchive(PASSWORD_REQUIRED)),
            Ok(Ok(file)) => Ok(file),
        }
    }

    fn by_name_with_optional_password<'a>(&'a self, name: &str, password: Option<&[u8]>) -> (r:
        ZipResult<Result<ZipFile<'a>, InvalidPassword>>)
        ensures
            !has_name(self@.files, name@) ==> r is Err && r->Err_0@ == Fault::FileNotFound,
            forall|position: int| #[trigger]
                is_last_named(self@.files, name@, position) ==> (match entry_opening(
                    self.source(),
                    self@.files[position],
                    password_view(password),
                ) {
                    EntryOpening::Failed(f) => r is Err && r->Err_0@ == f,
                    EntryOpening::InvalidPassword => r is Ok && r->Ok_0 is Err,
                    opening => r is Ok && r->Ok_0 is Ok && opened_as(
                        r->Ok_0->Ok_0,
                        self@.files[position],
                        opening,
                    ),
                }),
    {
        let index = match self.index_for_name(name) {
            Some(index) => index,
            None => {
                assert forall|position: int| !#[trigger] is_last_named(
                    self@.files,
                    name@,
                    position,
                ) by {}
                return Err(ZipError::FileNotFound);
            },
        };
        assert forall|position: int| #[trigger]
            is_last_named(self@.files, name@, position) implies position == index by {
            if position < index {
                assert(self@.files[index as int].file_name == name@);
            }
        }
        assert(has_name(self@.files, name@));
        self.by_index_with_optional_password(index, password)
    }

    /// Get a contained file by index, decrypt with given password
    ///
    /// The check of the password looks at one byte, so one wrong password in 256
    /// passes it; what is then read is not the entry's content.
    pub fn by_index_decrypt<'a>(&'a self, file_number: usize, password: &[u8]) -> (r: ZipResult<
        Result<ZipFile<'a>, InvalidPassword>,
    >)
        ensures
            file_number >= self@.files.len() ==> r is Err && r->Err_0@ == Fault::FileNotFound,
            file_number < self@.files.len() ==> (match entry_opening(
                self.source(),
                self@.files[file_number as int],
                Some(password@),
            ) {
                EntryOpening::Failed(f) => r is Err && r->Err_0@ == f,
                EntryOpening::InvalidPassword => r is Ok && r->Ok_0 is Err,
                opening => r is Ok && r->Ok_0 is Ok && opened_as(
                    r->Ok_0->Ok_0,
                    self@.files[file_number as int],
                    opening,
                ),
            }),
    {
        self.by_index_with_optional_password(file_number, Some(password))
    }

    /// Get a contained file by index
    ///
    /// An entry that needs a password is refused, whether or not it says so itself.
    pub fn by_index<'a>(&'a self, file_number: usize) -> (r: ZipResult<ZipFile<'a>>)
        ensures
            file_number >= self@.files.len() ==> r is Err && r->Err_0@ == Fault::FileNotFound,
            file_number < self@.files.len() ==> (match entry_opening(
                self.source(),
                self@.files[file_number as int],
                None,
            ) {
                EntryOpening::Failed(f) => r is Err && r->Err_0@ == f,
                EntryOpening::InvalidPassword => r is Err && r->Err_0@
                    == Fault::UnsupportedArchive(PASSWORD_REQUIRED@),
                opening => r is Ok && opened_as(r->Ok_0, self@.files[file_number as int], opening),
            }),
    {
        match self.by_index_with_optional_password(file_number, None) {
            Err(e) => Err(e),
            Ok(Err(_)) => Err(ZipError::UnsupportedArchive(PASSWORD_REQUIRED)),
            Ok(Ok(file)) => Ok(file),
        }
    }

    /// Get a contained file by index without decompressing it
    pub fn by_index_raw<'a>(&'a self, file_number: usize) -> (r: ZipResult<ZipFile<'a>>)
        ensures
            file_number >= self@.files.len() ==> r is Err && r->Err_0@ == Fault::FileNotFound,
            file_number < self@.files.len() ==> (match raw_opening(
                self.source(),
                self@.files[file_number as int],
            ) {
                EntryOpening::Failed(f) => r is Err && r->Err_0@ == f,
                opening => r is Ok && opened_as(r->Ok_0, self@.files[file_number as int], opening),
            }),
    {
        let data = match self.entry(file_number) {
            None => {
                return Err(ZipError::FileNotFound);
            },
            Some(data) => data,
        };
        let (data_start, payload) = match find_content(data, self.reader.as_slice()) {
            Err(e) => {
                return Err(e);
            },
            Ok(found) => found,
        };
        Ok(
            ZipFile {
                data: EntryData::Borrowed(data),
                data_start,
                reader: ZipFileReader::Raw(payload),
            },
        )
    }

    fn by_index_with_optional_password<'a>(&'a self, file_number: usize, password: Option<&[u8]>)
        -> (r: ZipResult<Result<ZipFile<'a>, InvalidPassword>>)
        ensures
            file_number >= self@.files.len() ==> r is Err && r->Err_0@ == Fault::FileNotFound,
            file_number < self@.files.len() ==> (match entry_opening(
                self.source(),
                self@.files[file_number as int],
                password_view(password),
            ) {
                EntryOpening::Failed(f) => r is Err && r->Err_0@ == f,
                EntryOpening::InvalidPassword => r is Ok && r->Ok_0 is Err,
                opening => r is Ok && r->Ok_0 is Ok && opened_as(
                    r->Ok_0->Ok_0,
                    self@.files[file_number as int],
                    opening,
                ),
            }),
    {
        let data = match self.entry(file_number) {
            None => {
                return Err(ZipError::FileNotFound);
            },
            Some(data) => data,
        };
        let mut password = password;
        match (password, data.encrypted) {
            (None, true) => {
                return Err(ZipError::UnsupportedArchive(PASSWORD_REQUIRED));
            },
            (Some(_), false) => {
                // Password supplied, but none needed! Discard.
                password = None;
            },
            _ => {},
        }
        let (data_start, limit_reader) = match find_content(data, self.reader.as_slice()) {
            Err(e) => {
                return Err(e);
            },
            Ok(found) => found,
        };
        match make_crypto_reader(
            data.compression_method,
            data.crc32,
            data.last_modified_time,
            data.using_data_descriptor,
            limit_reader,
            password,
            data.aes_mode,
            data.compressed_size,
        ) {
            Ok(Ok(crypto_reader)) => Ok(
                Ok(
                    ZipFile {
                        data: EntryData::Borrowed(data),
                        data_start,
                        reader: make_reader(data.compression_method, data.crc32, crypto_reader),
                    },
                ),
            ),
            Err(e) => Err(e),
            Ok(Err(e)) => Ok(Err(e)),
        }
    }
}

/// Methods for retrieving information on zip files
impl<'a> ZipFile<'a> {
    #[verifier::type_invariant]
    spec fn has_reader(self) -> bool {
        !(self.reader is NoReader)
    }

    /// What the entry's description says.
    pub closed spec fn description(&self) -> ZipFileDataView {
        self.data@
    }

    /// Where the entry's data starts.
    pub closed spec fn spec_data_start(&self) -> u64 {
        self.data_start
    }

    /// What reading the entry to its end gives.
    pub closed spec fn content(&self) -> Result<Seq<u8>, Fault> {
        self.reader.content()
    }

    /// Reads the entry to its end.
    ///
    /// Where the entry was not opened raw, the bytes that are returned have the
    /// stored checksum.
    pub fn read_to_end(&mut self) -> (r: ZipResult<Vec<u8>>)
        ensures
            *final(self) == *old(self),
            match r {
                Ok(bytes) => old(self).content() == Ok::<Seq<u8>, Fault>(bytes@),
                Err(err) => old(self).content() == Err::<Seq<u8>, Fault>(err@),
            },
    {
        proof {
            use_type_invariant(&*self);
        }
        self.reader.read_to_end()
    }

    /// Get the version of the file
    pub fn version_made_by(&self) -> (r: (u8, u8))
        ensures
            r.0 == self.description().version_made_by / 10,
            r.1 == self.description().version_made_by % 10,
    {
        let data = self.data.get();
        (data.version_made_by / 10, data.version_made_by % 10)
    }

    /// Get the name of the file
    ///
    /// It is dangerous to use this name directly when extracting an archive.
    /// It may contain an absolute path (`/etc/shadow`), or break out of the
    /// current directory (`../runtime`). Carelessly writing to these paths
    /// allows an attacker to craft a ZIP archive that will overwrite critical
    /// files. Use `enclosed_name` to validate the name as a safe path.
    pub fn name(&self) -> (r: &str)
        ensures
            r@ == self.description().file_name,
    {
        self.data.get().file_name.as_str()
    }

    /// Get the name of the file, in the raw (internal) byte representation.
    pub fn name_raw(&self) -> (r: &[u8])
        ensures
            r@ == self.description().file_name_raw,
    {
        self.data.get().file_name_raw.as_slice()
    }

    /// Get the name of the file in a sanitized form. It truncates the name to the
    /// first NULL byte, removes a leading '/' and removes '..' parts.
    pub fn sanitized_name(&self) -> (r: String)
        ensures
            r@ == mangled(self.description().file_name),
    {
        self.mangled_name()
    }

    /// Rewrite the path, ignoring any path components with special meaning.
    ///
    /// - Absolute paths are made relative
    /// - `..` parts are ignored
    /// - Truncates the filename at a NULL byte
    ///
    /// This is appropriate if you need to be able to extract *something* from
    /// any archive, but will easily misrepresent trivial paths like
    /// `foo/../bar` as `foo/bar` (instead of `bar`). Because of this,
    /// `enclosed_name` is the better option in most scenarios.
    pub fn mangled_name(&self) -> (r: String)
        ensures
            r@ == mangled(self.description().file_name),
    {
        self.data.get().file_name_sanitized()
    }

    /// Ensure the file path is safe to use as a path.
    ///
    /// - It can't contain NULL bytes
    /// - It can't resolve to a path outside the current directory
    ///   > `foo/../bar` is fine, `foo/../../bar` is not.
    /// - It can't be an absolute path
    pub fn enclosed_name(&self) -> (r: Option<&str>)
        ensures
            r is Some <==> is_enclosed(self.description().file_name),
            r is Some ==> r->0@ == self.description().file_name,
    {
        self.data.get().enclosed_name()
    }

    /// Get the comment of the file
    pub fn comment(&self) -> (r: &str)
        ensures
            r@ == self.description().file_comment,
    {
        self.data.get().file_comment.as_str()
    }

    /// Get the compression method used to store the file
    pub fn compression(&self) -> (r: CompressionMethod)
        ensures
            r == self.description().compression_method,
    {
        self.data.get().compression_method
    }

    /// Get the size of the file, in bytes, in the archive
    pub fn compressed_size(&self) -> (r: u64)
        ensures
            r == self.description().compressed_size,
    {
        self.data.get().compressed_size
    }

    /// Get the size of the file, in bytes, when uncompressed
    pub fn size(&self) -> (r: u64)
        ensures
            r == self.description().uncompressed_size,
    {
        self.data.get().uncompressed_size
    }

    /// Get the time the file was last modified
    pub fn last_modified(&self) -> (r: DateTime)
        ensures
            r == self.description().last_modified_time,
    {
        self.data.get().last_modified_time
    }

    /// Returns whether the file is actually a directory
    pub fn is_dir(&self) -> (r: bool)
        ensures
            r == ends_with_separator(self.description().file_name),
    {
        let name = self.name();
        let n = name.unicode_len();
        if n == 0 {
            false
        } else {
            let c = name.get_char(n - 1);
            c == '/' || c == '\\'
        }
    }

    /// Returns whether the file is a regular file
    pub fn is_file(&self) -> (r: bool)
        ensures
            r == !ends_with_separator(self.description().file_name),
    {
        !self.is_dir()
    }

    /// Get unix mode for the file
    pub fn unix_mode(&self) -> (r: Option<u32>)
        ensures
            r == crate::types::unix_mode_of(
                self.description().system,
                self.description().external_attributes,
            ),
    {
        self.data.get().unix_mode()
    }

    /// Get the CRC32 hash of the uncompressed file
    pub fn crc32(&self) -> (r: u32)
        ensures
            r == self.description().crc32,
    {
        self.data.get().crc32
    }

    /// Get the extra data of the zip header for this file
    pub fn extra_data(&self) -> (r: &[u8])
        ensures
            r@ == self.description().extra_field,
    {
        self.data.get().extra_field.as_slice()
    }

    /// Get the starting offset of the data of the compressed file
    pub fn data_start(&self) -> (r: u64)
        ensures
            r == self.spec_data_start(),
    {
        self.data_start
    }

    /// Get the starting offset of the zip header for this file
    pub fn header_start(&self) -> (r: u64)
        ensures
            r == self.description().header_start,
    {
        self.data.get().header_start
    }

    /// Get the starting offset of the zip header in the central directory for this
    /// file
    pub fn central_header_start(&self) -> (r: u64)
        ensures
            r == self.description().central_header_start,
    {
        self.data.get().central_header_start
    }
}

/// True when a name ends with a slash or a backslash.
pub open spec fn ends_with_separator(name: Seq<char>) -> bool {
    name.len() > 0 && (name.last() == '/' || name.last() == '\\')
}

/// The description of the entry that a local file header stands for. What only the
/// central directory holds is left empty: the comment, the attributes and the three
/// offsets.
///
/// An extra field that is cut short is taken up to where it is cut.
pub open spec fn entry_of_local_header(h: LocalFileHeaderView) -> Result<ZipFileDataView, Fault> {
    let utf8 = flag_utf8(h.flags);
    let w = walk_extra(
        h.extra_field,
        0,
        initial_extra_fields(h.uncompressed_size, h.compressed_size, 0, h.compression_method),
    );
    if w.fault is Some && w.fault != Some(Fault::Io) {
        Err(w.fault->0)
    } else {
        Ok(
            ZipFileDataView {
                system: system_of_code((h.version_needed as int / 256) as u8),
                version_made_by: (h.version_needed as int % 256) as u8,
                encrypted: flag_encrypted(h.flags),
                using_data_descriptor: flag_data_descriptor(h.flags),
                compression_method: w.fields.compression_method,
                compression_level: None,
                last_modified_time: DateTime::spec_from_msdos(h.last_mod_date, h.last_mod_time),
                crc32: h.crc32,
                compressed_size: w.fields.compressed_size,
                uncompressed_size: w.fields.uncompressed_size,
                file_name: decode_text(utf8, h.file_name),
                file_name_raw: h.file_name,
                extra_field: h.extra_field,
                file_comment: Seq::empty(),
                header_start: w.fields.header_start,
                central_header_start: 0,
                external_attributes: 0,
                large_file: w.fields.large_file,
                aes_mode: w.fields.aes_mode,
            },
        )
    }
}

/// An entry that was read from the start of a stream.
pub struct StreamEntry {
    /// What the local file header says of the entry.
    pub description: ZipFileDataView,
    /// Where the payload starts in the stream.
    pub data_start: int,
    /// What reading the entry to its end gives.
    pub content: Result<Seq<u8>, Fault>,
    /// The number of bytes of the stream that header and payload take.
    pub consumed: int,
}

/// What stands at the start of a stream that is read forwards: an entry, or the
/// central directory, at which the entries end.
///
/// An encrypted entry and one whose sizes follow the data are refused, because the
/// length of the payload is then not known before it is read.
pub open spec fn stream_entry(s: Seq<u8>) -> Result<Option<StreamEntry>, Fault> {
    if s.len() < 4 {
        Err(Fault::Io)
    } else if u32_at(s, 0) == CENTRAL_DIRECTORY_HEADER_SIGNATURE {
        Ok(None)
    } else {
        match parse_lfh(s) {
            Err(f) => Err(f),
            Ok(h) => match entry_of_local_header(h) {
                Err(f) => Err(f),
                Ok(d) => {
                    if d.encrypted {
                        Err(Fault::UnsupportedArchive("Encrypted files are not supported"@))
                    } else if d.using_data_descriptor {
                        Err(
                            Fault::UnsupportedArchive(
                                "The file length is not available in the local header"@,
                            ),
                        )
                    } else if !method_supported(d.compression_method) {
                        Err(Fault::UnsupportedArchive("Compression method not supported"@))
                    } else {
                        let payload = limited(s, h.len(), d.compressed_size as int);
                        Ok(
                            Some(
                                StreamEntry {
                                    description: d,
                                    data_start: h.len(),
                                    content: checked_content(
                                        d.compression_method,
                                        Ok(payload),
                                        d.crc32,
                                        false,
                                    ),
                                    consumed: h.len() + payload.len(),
                                },
                            ),
                        )
                    }
                },
            },
        }
    }
}

/// Builds the description of the entry that a local file header stands for.
fn local_header_to_zip_file(header: LocalFileHeader) -> (r: ZipResult<ZipFileData>)
    ensures
        match r {
            Ok(e) => entry_of_local_header(header@) == Ok::<ZipFileDataView, Fault>(e@),
            Err(err) => entry_of_local_header(header@) == Err::<ZipFileDataView, Fault>(err@),
        },
        r is Ok ==> r->Ok_0@.file_name_raw == header@.file_name,
        r is Ok && flag_utf8(header@.flags) && valid_utf8(header@.file_name)
            ==> r->Ok_0@.file_name == decode_utf8(header@.file_name),
        r is Ok && !flag_utf8(header@.flags) ==> r->Ok_0@.file_name == cp437_string(
            header@.file_name,
        ),
{
    let (encrypted, is_utf8, using_data_descriptor) = read_flags(header.flags);
    let (system, version_made_by) = read_version_made_by(header.version_needed);
    let file_name = decode(is_utf8, header.file_name.as_slice());
    let ghost h = header@;
    let mut result = ZipFileData {
        system,
        version_made_by,
        encrypted,
        using_data_descriptor,
        compression_method: CompressionMethod::from_u16(header.compression_method),
        compression_level: None,
        last_modified_time: DateTime::from_msdos(header.last_mod_date, header.last_mod_time),
        crc32: header.crc32,
        compressed_size: header.compressed_size as u64,
        uncompressed_size: header.uncompressed_size as u64,
        file_name,
        file_name_raw: header.file_name,
        extra_field: header.extra_field,
        // file comment is only available in the central directory
        file_comment: String::new(),
        // header_start and data start are not available, but also don't matter, since
        // seeking is not available.
        header_start: 0,
        data_start: AtomicU64::new(0),
        central_header_start: 0,
        // The external_attributes field is only available in the central directory.
        external_attributes: 0,
        large_file: false,
        aes_mode: None,
    };
    assert(extra_fields_of(result@) == initial_extra_fields(
        h.uncompressed_size,
        h.compressed_size,
        0,
        h.compression_method,
    ));
    match parse_extra_field(&mut result) {
        Ok(_) => {},
        Err(e) => {
            if !e.is_io() {
                return Err(e);
            }
        },
    }
    Ok(result)
}

/// Read ZipFile structures from a non-seekable reader.
///
/// This is an alternative method to read a zip file. If possible, use the ZipArchive
/// functions as some information will be missing when reading this manner.
///
/// Reads a file header from the start of the stream. Will return `Ok(Some(..))` if a
/// file is present at the start of the stream, with the number of bytes that it takes
/// there, behind which the next header stands. Returns `Ok(None)` if the start of the
/// central directory is encountered. No more files should be read after this.
pub fn read_zipfile_from_stream<'a>(reader: &'a [u8]) -> (r: ZipResult<Option<(ZipFile<'a>, usize)>>)
    ensures
        match stream_entry(reader@) {
            Err(f) => r is Err && r->Err_0@ == f,
            Ok(None) => r is Ok && r->Ok_0 is None,
            Ok(Some(entry)) => r is Ok && r->Ok_0 is Some && {
                let found = r->Ok_0->0;
                &&& found.0.description() == entry.description
                &&& found.0.spec_data_start() == entry.data_start
                &&& found.0.content() == entry.content
                &&& found.1 == entry.consumed
                &&& found.1 <= reader@.len()
            },
        },
        r is Ok && r->Ok_0 is Some ==> {
            let header = parse_lfh(reader@)->Ok_0;
            let found = r->Ok_0->0;
            &&& parse_lfh(reader@) is Ok
            &&& found.0.description().file_name_raw == header.file_name
            &&& flag_utf8(header.flags) && valid_utf8(header.file_name)
                ==> found.0.description().file_name == decode_utf8(header.file_name)
            &&& !flag_utf8(header.flags) ==> found.0.description().file_name == cp437_string(
                header.file_name,
            )
        },
{
    if reader.len() < 4 {
        return Err(truncated());
    }
    let signature: u32 = read_u32_le(reader, 0);
    if signature == CENTRAL_DIRECTORY_HEADER_SIGNATURE {
        return Ok(None);
    }
    let header = match LocalFileHeader::parse(reader) {
        Err(e) => {
            return Err(e);
        },
        Ok(h) => h,
    };
    let header_len: usize = 30 + header.file_name.len() + header.extra_field.len();
    let result = match local_header_to_zip_file(header) {
        Err(e) => {
            return Err(e);
        },
        Ok(d) => d,
    };
    if result.encrypted {
        return Err(ZipError::UnsupportedArchive("Encrypted files are not supported"));
    }
    if result.using_data_descriptor {
        return Err(
            ZipError::UnsupportedArchive("The file length is not available in the local header"),
        );
    }
    let available: usize = reader.len() - header_len;
    let payload_len: usize = if result.compressed_size >= available as u64 {
        available
    } else {
        result.compressed_size as usize
    };
    let limit_reader = slice_subrange(reader, header_len, header_len + payload_len);
    assert(limit_reader@ =~= limited(
        reader@,
        header_len as int,
        result.compressed_size as int,
    ));
    let result_crc32 = result.crc32;
    let result_compression_method = result.compression_method;
    let crypto_reader = match make_crypto_reader(
        result_compression_method,
        result_crc32,
        result.last_modified_time,
        result.using_data_descriptor,
        limit_reader,
        None,
        None,
        result.compressed_size,
    ) {
        Err(e) => {
            return Err(e);
        },
        Ok(Err(_)) => {
            return Err(ZipError::UnsupportedArchive(PASSWORD_REQUIRED));
        },
        Ok(Ok(crypto_reader)) => crypto_reader,
    };
    Ok(
        Some(
            (
                ZipFile {
                    data: EntryData::Owned(result),
                    data_start: header_len as u64,
                    reader: make_reader(result_compression_method, result_crc32, crypto_reader),
                },
                header_len + payload_len,
            ),
        ),
    )
}

/// The bytes that reading an entry gives have the stored checksum, unless the entry
/// is AE-2 encrypted, which carries none.
pub proof fn lemma_content_has_stored_checksum(
    method: CompressionMethod,
    plain: Result<Seq<u8>, Fault>,
    stored: u32,
    ae2_encrypted: bool,
)
    requires
        checked_content(method, plain, stored, ae2_encrypted) is Ok,
    ensures
        ae2_encrypted || crate::crc32::crc32(
            checked_content(method, plain, stored, ae2_encrypted)->Ok_0,
        ) == stored,
{
}

/// Reading a stored entry that is not encrypted gives as many bytes as the entry
/// says it has, where the archive holds the whole payload and the entry gives one
/// size for both forms, as a stored entry of a valid archive does.
pub proof fn lemma_stored_entry_length(s: Seq<u8>, d: ZipFileDataView)
    requires
        d.compression_method == CompressionMethod::Stored,
        !d.encrypted,
        d.aes_mode is None,
        d.compressed_size == d.uncompressed_size,
        entry_opening(s, d, None) is Ready,
        entry_opening(s, d, None)->content is Ok,
        entry_opening(s, d, None)->data_start + d.compressed_size <= s.len(),
    ensures
        entry_opening(s, d, None)->content->Ok_0.len() == d.uncompressed_size,
{
}

/// A changed byte in the payload of a stored entry that is not encrypted is
/// detected: where the entry was read before, reading it after the change ends in a
/// checksum error, with the stored checksum as the one expected and that of the
/// changed payload as the actual one.
pub proof fn lemma_changed_payload_byte_is_detected(
    s: Seq<u8>,
    d: ZipFileDataView,
    at: int,
    byte: u8,
)
    requires
        d.compression_method == CompressionMethod::Stored,
        !d.encrypted,
        d.aes_mode is None,
        entry_opening(s, d, None) is Ready,
        entry_opening(s, d, None)->content is Ok,
        entry_opening(s, d, None)->data_start <= at < entry_opening(s, d, None)->data_start
            + d.compressed_size,
        at < s.len(),
        byte != s[at],
    ensures
        entry_opening(s.update(at, byte), d, None) == (EntryOpening::Ready {
            data_start: entry_opening(s, d, None)->data_start,
            content: Err(
                Fault::Crc32Mismatch {
                    expected: d.crc32,
                    actual: crate::crc32::crc32(
                        limited(
                            s.update(at, byte),
                            entry_opening(s, d, None)->data_start as int,
                            d.compressed_size as int,
                        ),
                    ),
                },
            ),
        }),
{
    let t = s.update(at, byte);
    let start = entry_opening(s, d, None)->data_start;
    let head = d.header_start as int;
    crate::codec::lemma_u32_at_same_bytes(s, t, head);
    crate::codec::lemma_u16_at_same_bytes(s, t, head + 26);
    crate::codec::lemma_u16_at_same_bytes(s, t, head + 28);
    assert(local_data_start(t, d.header_start) == local_data_start(s, d.header_start));
    let before = limited(s, start as int, d.compressed_size as int);
    let after = limited(t, start as int, d.compressed_size as int);
    assert(crate::crc32::differ_in_one_byte(before, after, at - start));
    crate::crc32::lemma_one_changed_byte_changes_the_checksum(before, after, at - start);
}

} // verus!
