//! What the reader gets from an archive that the writer made: the entries it was
//! given, under their names and with their sizes.

use vstd::prelude::*;
use vstd::utf8::encode_utf8;
use crate::codec::{group_read_back, lemma_at_suffix, u16_at, u32_at};
use crate::compression::CompressionMethod;
use crate::crc32::crc32;
use crate::headers::{
    cdh_bytes, cdh_fixed_bytes, lemma_cdh_write_then_parse, lemma_lfh_write_then_parse,
    lfh_bytes, lfh_fixed_bytes, parse_lfh, LocalFileHeaderView,
};
use crate::read::{
    checked_content, directory_counts, entry_at, entry_opening, limited, local_data_start,
    open_archive, read_directory, zip64_locator, ArchiveView, EntryOpening,
};
use crate::records::{
    eocd_bytes, eocd_signature_at, find_eocd, is_eocd_position, lemma_eocd_write_then_parse,
    lemma_find_eocd_at, lemma_first_zip64_signature, lemma_locator_write_then_parse,
    lemma_zip64_eocd_write_then_parse, lemma_zip64_scan_in_range, locator_bytes,
    zip64_eocd_bytes, zip64_signature_at, CentralDirectoryEndView, Zip64CentralDirectoryEnd,
    Zip64CentralDirectoryEndLocator,
};
use crate::result::Fault;
use crate::types::{System, ZipFileDataView};
use crate::write::{
    any_large, as_read_back, central_directory, central_header_of, closed_entry, encoded,
    end_record, end_records, finished, lemma_reader_recovers_written_entry, local_header_of,
    needs_zip64_end, reads_back, settle, start, written, written_entry, FileOptions, WriterView,
};

verus! {

/// What the reader makes of the entries of a writer whose central directory starts at
/// `base`: each entry as it is read back, with the offset of its central directory
/// header.
pub open spec fn read_back_entries(files: Seq<ZipFileDataView>, base: int) -> Seq<
    ZipFileDataView,
> {
    Seq::new(
        files.len(),
        |i: int| as_read_back(files[i], 0, (base + central_directory(files.take(i)).len()) as u64),
    )
}

/// True for the entries of a writer that the reader gets back as they were written,
/// with names that fit the length field of a header.
pub open spec fn all_read_back(files: Seq<ZipFileDataView>) -> bool {
    forall|i: int|
        0 <= i < files.len() ==> reads_back(#[trigger] files[i]) && encode_utf8(
            files[i].file_name,
        ).len() <= 0xFFFF
}

/// The central directory of the first entries of a writer is what the central
/// directory of all of them starts with.
pub proof fn lemma_directory_prefix(files: Seq<ZipFileDataView>, k: int)
    requires
        0 <= k <= files.len(),
    ensures
        central_directory(files.take(k)).len() <= central_directory(files).len(),
        central_directory(files).subrange(0, central_directory(files.take(k)).len() as int)
            == central_directory(files.take(k)),
    decreases files.len(),
{
    if k == files.len() {
        assert(files.take(k) =~= files);
        assert(central_directory(files).subrange(0, central_directory(files).len() as int)
            =~= central_directory(files));
    } else {
        lemma_directory_prefix(files.drop_last(), k);
        assert(files.drop_last().take(k) =~= files.take(k));
        let part = central_directory(files.take(k));
        assert(central_directory(files).subrange(0, part.len() as int) =~= central_directory(
            files.drop_last(),
        ).subrange(0, part.len() as int));
    }
}

/// The central directory header that the writer makes for an entry takes as many
/// bytes as it says, and fits its length fields.
proof fn lemma_written_header_fits(d: ZipFileDataView)
    requires
        reads_back(d),
        encode_utf8(d.file_name).len() <= 0xFFFF,
    ensures
        central_header_of(d).fits(),
        cdh_bytes(central_header_of(d)).len() == central_header_of(d).len(),
{
    broadcast use group_read_back;

    let h = central_header_of(d);
    crate::codec::lemma_u64_encoding_len(d.uncompressed_size);
    crate::codec::lemma_u64_encoding_len(d.compressed_size);
    crate::codec::lemma_u64_encoding_len(d.header_start);
    assert(h.extra_field.len() <= 28);
    assert(cdh_fixed_bytes(h).len() == 46);
}

/// The central directory header that the writer makes for an entry is read back as
/// that entry, wherever it stands.
proof fn lemma_written_header_is_read_back(s: Seq<u8>, pos: int, d: ZipFileDataView)
    requires
        reads_back(d),
        encode_utf8(d.file_name).len() <= 0xFFFF,
        0 <= pos,
        pos + cdh_bytes(central_header_of(d)).len() <= s.len(),
        s.subrange(pos, pos + cdh_bytes(central_header_of(d)).len()) == cdh_bytes(
            central_header_of(d),
        ),
    ensures
        entry_at(s, pos, 0) == Ok::<(ZipFileDataView, int), Fault>(
            (as_read_back(d, 0, pos as u64), pos + cdh_bytes(central_header_of(d)).len()),
        ),
{
    let h = central_header_of(d);
    let next = pos + cdh_bytes(h).len();
    let rest = s.subrange(next, s.len() as int);
    assert(s.subrange(pos, s.len() as int) =~= s.subrange(pos, next) + rest);
    lemma_written_header_fits(d);
    lemma_cdh_write_then_parse(h, rest);
    lemma_reader_recovers_written_entry(d, 0, pos as u64);
}

/// Where the central directory header of the entry `k` starts in a directory that
/// starts at `base`.
pub open spec fn header_position(files: Seq<ZipFileDataView>, base: int, k: int) -> int {
    base + central_directory(files.take(k)).len()
}

/// True when the central directory header of the entry `k` stands in `s` behind those
/// of the entries before it, in a directory that starts at `base`.
#[verifier::opaque]
pub open spec fn header_stands(s: Seq<u8>, files: Seq<ZipFileDataView>, base: int, k: int)
    -> bool {
    &&& 0 <= base
    &&& header_position(files, base, k + 1) <= s.len()
    &&& header_position(files, base, k + 1) == header_position(files, base, k) + cdh_bytes(
        central_header_of(files[k]),
    ).len()
    &&& s.subrange(header_position(files, base, k), header_position(files, base, k + 1))
        == cdh_bytes(central_header_of(files[k]))
}

/// In an archive the central directory header of each entry stands behind those of
/// the entries before it.
proof fn lemma_written_header_stands(
    before: Seq<u8>,
    files: Seq<ZipFileDataView>,
    behind: Seq<u8>,
    k: int,
)
    requires
        0 <= k < files.len(),
    ensures
        header_stands(before + central_directory(files) + behind, files, before.len() as int, k),
{
    reveal(header_stands);
    let s = before + central_directory(files) + behind;
    let directory = central_directory(files);
    let done = central_directory(files.take(k));
    let pos = (before.len() + done.len()) as int;
    let written = cdh_bytes(central_header_of(files[k]));
    lemma_directory_prefix(files, k + 1);
    assert(files.take(k + 1).drop_last() =~= files.take(k));
    assert(files.take(k + 1).last() == files[k]);
    assert(central_directory(files.take(k + 1)) == done + written);
    let next = pos + written.len() as int;
    assert(directory.subrange(0, (done + written).len() as int) == done + written);
    assert forall|j: int| 0 <= j < written.len() implies s[pos + j] == written[j] by {
        assert(directory.subrange(0, (done + written).len() as int)[done.len() + j] == (done
            + written)[done.len() + j]);
    }
    assert(s.subrange(pos, next) =~= written);
}

/// A header that stands in its place is read back as the entry it was made for.
proof fn lemma_standing_header_is_read_back(
    s: Seq<u8>,
    files: Seq<ZipFileDataView>,
    base: int,
    k: int,
)
    requires
        0 <= k < files.len(),
        header_stands(s, files, base, k),
        reads_back(files[k]),
        encode_utf8(files[k].file_name).len() <= 0xFFFF,
    ensures
        entry_at(s, header_position(files, base, k), 0) == Ok::<(ZipFileDataView, int), Fault>(
            (
                as_read_back(files[k], 0, header_position(files, base, k) as u64),
                header_position(files, base, k + 1),
            ),
        ),
{
    reveal(header_stands);
    lemma_written_header_is_read_back(s, header_position(files, base, k), files[k]);
}

/// Reading a directory is reading its first header and then the rest.
proof fn lemma_directory_step(
    s: Seq<u8>,
    pos: int,
    count: nat,
    e: ZipFileDataView,
    next: int,
    rest: Seq<ZipFileDataView>,
)
    requires
        count > 0,
        entry_at(s, pos, 0) == Ok::<(ZipFileDataView, int), Fault>((e, next)),
        read_directory(s, next, (count - 1) as nat, 0) == Ok::<Seq<ZipFileDataView>, Fault>(rest),
    ensures
        read_directory(s, pos, count, 0) == Ok::<Seq<ZipFileDataView>, Fault>(seq![e] + rest),
{
}

/// A central directory whose headers stand one behind the other is read back entry
/// by entry.
proof fn lemma_standing_directory_is_read_back(
    s: Seq<u8>,
    files: Seq<ZipFileDataView>,
    base: int,
    k: int,
)
    requires
        0 <= k <= files.len(),
        all_read_back(files),
        forall|j: int| 0 <= j < files.len() ==> header_stands(s, files, base, j),
    ensures
        read_directory(s, header_position(files, base, k), (files.len() - k) as nat, 0) == Ok::<
            Seq<ZipFileDataView>,
            Fault,
        >(read_back_entries(files, base).skip(k)),
    decreases files.len() - k,
{
    let back = read_back_entries(files, base);
    if k == files.len() {
        assert(back.skip(k) =~= Seq::<ZipFileDataView>::empty());
    } else {
        assert(reads_back(files[k]));
        assert(header_stands(s, files, base, k));
        lemma_standing_header_is_read_back(s, files, base, k);
        lemma_standing_directory_is_read_back(s, files, base, k + 1);
        assert(back[k] == as_read_back(files[k], 0, header_position(files, base, k) as u64));
        lemma_directory_step(
            s,
            header_position(files, base, k),
            (files.len() - k) as nat,
            back[k],
            header_position(files, base, k + 1),
            back.skip(k + 1),
        );
        assert(seq![back[k]] + back.skip(k + 1) =~= back.skip(k));
    }
}

/// The central directory that the writer makes is read back entry by entry.
pub proof fn lemma_directory_is_read_back(
    before: Seq<u8>,
    files: Seq<ZipFileDataView>,
    behind: Seq<u8>,
)
    requires
        all_read_back(files),
    ensures
        read_directory(
            before + central_directory(files) + behind,
            before.len() as int,
            files.len(),
            0,
        ) == Ok::<Seq<ZipFileDataView>, Fault>(read_back_entries(files, before.len() as int)),
{
    let s = before + central_directory(files) + behind;
    let back = read_back_entries(files, before.len() as int);
    assert forall|j: int| 0 <= j < files.len() implies header_stands(
        s,
        files,
        before.len() as int,
        j,
    ) by {
        lemma_written_header_stands(before, files, behind, j);
    }
    lemma_standing_directory_is_read_back(s, files, before.len() as int, 0);
    assert(files.take(0) =~= Seq::<ZipFileDataView>::empty());
    assert(back.skip(0) =~= back);
}

/// True when the reader cannot mistake where an archive ends: no offset behind the
/// start of the end of central directory record holds the signature of that record,
/// which a comment or the fields before it may spell out, and in an archive without
/// ZIP64 records the 20 bytes before the record are not those of a ZIP64 locator,
/// which the end of a name may spell out.
pub open spec fn end_is_unmistakable(v: WriterView) -> bool {
    let s = finished(v);
    let at = s.len() - 22 - v.comment.len();
    &&& forall|q: int| at < q <= s.len() - 22 ==> !eocd_signature_at(s, q)
    &&& needs_zip64_end(
        v.files.len() as int,
        any_large(v.files),
        v.bytes.len() as int,
        central_directory(v.files).len() as int,
    ) || zip64_locator(s, v.comment.len() as int) is None
}

/// An archive with ZIP64 records and without a comment, as the archive of a writer
/// with a large file is, ends unmistakably.
pub proof fn lemma_zip64_end_is_unmistakable(v: WriterView)
    requires
        v.comment.len() == 0,
        needs_zip64_end(
            v.files.len() as int,
            any_large(v.files),
            v.bytes.len() as int,
            central_directory(v.files).len() as int,
        ),
    ensures
        end_is_unmistakable(v),
{
}

/// The archive of a writer is opened as what the writer holds: its entries, each as
/// it is read back, with no shift of the offsets and with the writer's comment. This
/// holds for archives with and without ZIP64 records.
pub proof fn lemma_written_archive_is_opened(v: WriterView)
    requires
        all_read_back(v.files),
        v.comment.len() <= 0xFFFF,
        v.files.len() <= usize::MAX,
        finished(v).len() <= u64::MAX,
        end_is_unmistakable(v),
    ensures
        open_archive(finished(v)) == Ok::<ArchiveView, Fault>(
            ArchiveView {
                files: read_back_entries(v.files, v.bytes.len() as int),
                offset: 0,
                comment: v.comment,
            },
        ),
{
    broadcast use group_read_back;

    let s = finished(v);
    let directory = central_directory(v.files);
    let count = v.files.len() as int;
    let start = v.bytes.len() as u64;
    let size = directory.len() as u64;
    let record = end_record(count, start, size, v.comment);
    let ends = end_records(count, any_large(v.files), start, size, v.comment);
    let nothing = Seq::<u8>::empty();
    assert(eocd_bytes(record).len() == 22 + v.comment.len());
    let at = s.len() - 22 - v.comment.len();
    assert(s.subrange(at, s.len() as int) =~= eocd_bytes(record));
    assert(eocd_bytes(record) + nothing =~= eocd_bytes(record));
    lemma_eocd_write_then_parse(record, nothing);
    lemma_at_suffix(s, at);
    assert(u32_at(s.subrange(at, s.len() as int), 0) == u32_at(s, at + 0));
    assert(is_eocd_position(s, at));
    lemma_find_eocd_at(s, at);
    assert(find_eocd(s) == Ok::<(CentralDirectoryEndView, u64), Fault>((record, at as u64)));
    if needs_zip64_end(count, any_large(v.files), start as int, size as int) {
        let wide = Zip64CentralDirectoryEnd {
            version_made_by: crate::types::DEFAULT_VERSION as u16,
            version_needed_to_extract: crate::types::DEFAULT_VERSION as u16,
            disk_number: 0,
            disk_with_central_directory: 0,
            number_of_files_on_this_disk: count as u64,
            number_of_files: count as u64,
            central_directory_size: size,
            central_directory_offset: start,
        };
        let locator = Zip64CentralDirectoryEndLocator {
            disk_with_central_directory: 0,
            end_of_central_directory_offset: (start + size) as u64,
            number_of_disks: 1,
        };
        assert(zip64_eocd_bytes(wide).len() == 56);
        assert(locator_bytes(locator).len() == 20);
        assert(ends == zip64_eocd_bytes(wide) + locator_bytes(locator) + eocd_bytes(record));
        assert(s.subrange(at - 20, at) =~= locator_bytes(locator));
        assert(locator_bytes(locator) + nothing =~= locator_bytes(locator));
        lemma_locator_write_then_parse(locator, nothing);
        assert(zip64_locator(s, v.comment.len() as int) == Some(locator));
        let nominal = at - 76;
        assert(nominal == start + size);
        let tail = s.subrange(nominal, s.len() as int);
        assert(tail =~= zip64_eocd_bytes(wide) + (locator_bytes(locator) + eocd_bytes(record)));
        lemma_zip64_eocd_write_then_parse(wide, locator_bytes(locator) + eocd_bytes(record));
        lemma_at_suffix(s, nominal);
        assert(u32_at(tail, 0) == u32_at(s, nominal + 0));
        assert(zip64_signature_at(s, nominal));
        lemma_first_zip64_signature(s, nominal, at - 60, nominal);
        lemma_zip64_scan_in_range(s, nominal, at - 60);
        assert(s.subrange(nominal, nominal + 56) =~= zip64_eocd_bytes(wide));
        assert(zip64_eocd_bytes(wide) + nothing =~= zip64_eocd_bytes(wide));
        lemma_zip64_eocd_write_then_parse(wide, nothing);
        assert(directory_counts(s, record, at as u64) == Ok::<(u64, u64, usize), Fault>(
            (0, start, count as usize),
        ));
    } else {
        assert(directory_counts(s, record, at as u64) == Ok::<(u64, u64, usize), Fault>(
            (0, start, count as usize),
        ));
    }
    lemma_directory_is_read_back(v.bytes, v.files, ends);
}

/// The description of an entry as it was started: without checksum and sizes, which
/// are known when the entry is complete.
pub open spec fn as_started(f: ZipFileDataView) -> ZipFileDataView {
    ZipFileDataView { crc32: 0, compressed_size: 0, uncompressed_size: 0, ..f }
}

/// True when `bytes` hold the entry `f` as the writer puts it there for the plain text
/// `plain`: at the offset that the description gives stand the local file header and
/// the payload, and the description holds checksum and sizes of what was written.
pub open spec fn entry_stands(
    bytes: Seq<u8>,
    f: ZipFileDataView,
    plain: Seq<u8>,
    streaming: bool,
) -> bool {
    let d = as_started(f);
    let payload = encoded(d.compression_method, d.compression_level, plain);
    let laid = written_entry(d, plain, streaming);
    &&& payload is Some
    &&& plain.len() <= u64::MAX
    &&& payload->0.len() <= u64::MAX
    &&& f == closed_entry(d, plain)
    &&& f.header_start + laid.len() <= bytes.len()
    &&& bytes.subrange(f.header_start as int, f.header_start + laid.len()) == laid
}

/// Where the payload of a written entry starts: behind the 30 bytes of the local file
/// header, the name, and the ZIP64 record of a large file.
pub open spec fn data_position(f: ZipFileDataView) -> int {
    f.header_start + 30 + encode_utf8(f.file_name).len() + (if f.large_file {
        20int
    } else {
        0int
    }) + f.extra_field.len()
}

/// A local file header that stands in an archive tells where the data starts: behind
/// it.
proof fn lemma_data_starts_behind_header(s: Seq<u8>, at: u64, h: LocalFileHeaderView)
    requires
        h.fits(),
        at + lfh_bytes(h).len() <= s.len(),
        s.len() <= u64::MAX,
        s.subrange(at as int, at + lfh_bytes(h).len()) == lfh_bytes(h),
    ensures
        lfh_bytes(h).len() == h.len(),
        local_data_start(s, at) == Ok::<u64, Fault>((at + h.len()) as u64),
{
    broadcast use group_read_back;

    assert(lfh_fixed_bytes(h).len() == 30);
    let next = at + lfh_bytes(h).len();
    let rest = s.subrange(next, s.len() as int);
    let tail = s.subrange(at as int, s.len() as int);
    assert(tail =~= s.subrange(at as int, next) + rest);
    lemma_lfh_write_then_parse(h, rest);
    lemma_at_suffix(s, at as int);
    assert(u32_at(tail, 0) == u32_at(s, at + 0));
    assert(u16_at(tail, 26) == u16_at(s, at + 26));
    assert(u16_at(tail, 28) == u16_at(s, at + 28));
    let got = parse_lfh(tail)->Ok_0;
    assert(got.file_name.len() == u16_at(tail, 26));
    assert(got.extra_field.len() == u16_at(tail, 28));
}

/// The local file header of a written entry fits its length fields, and the payload
/// follows it.
proof fn lemma_written_entry_layout(f: ZipFileDataView, plain: Seq<u8>, streaming: bool)
    requires
        encoded(f.compression_method, f.compression_level, plain) is Some,
        f == closed_entry(as_started(f), plain),
        encode_utf8(f.file_name).len() <= 0xFFFF,
        f.extra_field.len() == 0,
    ensures
        ({
            let h = if streaming {
                local_header_of(as_started(f))
            } else {
                local_header_of(f)
            };
            let payload = encoded(f.compression_method, f.compression_level, plain)->0;
            &&& h.fits()
            &&& f.header_start + h.len() == data_position(f)
            &&& lfh_bytes(h).len() == h.len()
            &&& written_entry(as_started(f), plain, streaming).len() >= h.len() + payload.len()
            &&& written_entry(as_started(f), plain, streaming).subrange(0, h.len()) == lfh_bytes(h)
            &&& written_entry(as_started(f), plain, streaming).subrange(
                h.len(),
                h.len() + payload.len(),
            ) == payload
        }),
{
    broadcast use group_read_back;

    let d = as_started(f);
    let h = if streaming {
        local_header_of(d)
    } else {
        local_header_of(f)
    };
    let payload = encoded(f.compression_method, f.compression_level, plain)->0;
    assert(lfh_fixed_bytes(h).len() == 30);
    let laid = written_entry(d, plain, streaming);
    assert(laid.subrange(0, h.len()) =~= lfh_bytes(h));
    assert(laid.subrange(h.len(), h.len() + payload.len()) =~= payload);
}

/// The reader reads a written entry as the writer wrote it: it finds the payload
/// behind the local file header, decodes what the writer encoded, and checks it
/// against the checksum of the plain text. For a stored entry that is the plain text
/// itself.
pub proof fn lemma_written_entry_is_read(
    s: Seq<u8>,
    f: ZipFileDataView,
    plain: Seq<u8>,
    streaming: bool,
    central_header_start: u64,
)
    requires
        entry_stands(s, f, plain, streaming),
        reads_back(f),
        !f.encrypted,
        encode_utf8(f.file_name).len() <= 0xFFFF,
        s.len() <= u64::MAX,
    ensures
        entry_opening(s, as_read_back(f, 0, central_header_start), None) == (EntryOpening::Ready {
            data_start: data_position(f) as u64,
            content: checked_content(
                f.compression_method,
                Ok(encoded(f.compression_method, f.compression_level, plain)->0),
                crc32(plain),
                false,
            ),
        }),
        f.compression_method == CompressionMethod::Stored ==> entry_opening(
            s,
            as_read_back(f, 0, central_header_start),
            None,
        )->content == Ok::<Seq<u8>, Fault>(plain),
{
    let d = as_started(f);
    let h = if streaming {
        local_header_of(d)
    } else {
        local_header_of(f)
    };
    let payload = encoded(f.compression_method, f.compression_level, plain)->0;
    let laid = written_entry(d, plain, streaming);
    lemma_written_entry_layout(f, plain, streaming);
    let at = f.header_start as int;
    assert(s.subrange(at, at + lfh_bytes(h).len()) =~= laid.subrange(0, h.len()));
    lemma_data_starts_behind_header(s, f.header_start, h);
    let start = data_position(f);
    assert(s.subrange(start, start + payload.len()) =~= laid.subrange(
        h.len(),
        h.len() + payload.len(),
    ));
    assert(limited(s, start, f.compressed_size as int) =~= payload);
}

/// True for the description of an entry as the writer makes it: by Unix, without
/// encryption, extra field and comment, with a method that is decoded and a name that
/// fits the length field of a header.
pub open spec fn writer_made(f: ZipFileDataView) -> bool {
    &&& !f.encrypted
    &&& f.extra_field.len() == 0
    &&& f.file_comment.len() == 0
    &&& f.aes_mode is None
    &&& f.system == System::Unix
    &&& crate::compression::method_supported(f.compression_method)
    &&& encode_utf8(f.file_name).len() <= 0xFFFF
}

/// True when the open entry of a writer, if there is one, is as `start` leaves it:
/// made by the writer, without checksum and sizes, and to stand where the bytes of
/// the complete entries end.
pub open spec fn open_entry_is_fresh(v: WriterView) -> bool {
    match v.open {
        Some((d, _)) => writer_made(d) && d == as_started(d) && d.header_start == v.bytes.len(),
        None => true,
    }
}

/// True when a writer holds the plain texts `plains` as its complete entries: each
/// entry stands in the bytes of the writer as it was written for its plain text.
pub open spec fn holds_entries(v: WriterView, plains: Seq<Seq<u8>>) -> bool {
    &&& v.files.len() == plains.len()
    &&& v.bytes.len() <= u64::MAX
    &&& forall|i: int|
        0 <= i < v.files.len() ==> writer_made(#[trigger] v.files[i]) && entry_stands(
            v.bytes,
            v.files[i],
            plains[i],
            v.streaming,
        )
    &&& open_entry_is_fresh(v)
}

/// The plain texts that a writer holds after its open entry, if there is one, was
/// completed.
pub open spec fn settled_plains(v: WriterView, plains: Seq<Seq<u8>>) -> Seq<Seq<u8>> {
    match v.open {
        Some((_, plain)) => plains.push(plain),
        None => plains,
    }
}

/// True when what a writer holds after its open entry was completed fits the range of
/// 64 bits: the plain text of the open entry and all bytes of the archive so far.
pub open spec fn settles_in_range(v: WriterView) -> bool {
    &&& settle(v) is Ok ==> settle(v)->Ok_0.bytes.len() <= u64::MAX
    &&& match v.open {
        Some((_, plain)) => plain.len() <= u64::MAX,
        None => true,
    }
}

/// A writer that has written nothing holds no entries.
pub proof fn lemma_new_writer_holds_nothing(v: WriterView)
    requires
        v.bytes.len() == 0,
        v.files.len() == 0,
        v.open is None,
    ensures
        holds_entries(v, Seq::empty()),
{
}

/// An entry that stands in some bytes stands in them when more bytes follow.
proof fn lemma_entry_stands_on(
    bytes: Seq<u8>,
    more: Seq<u8>,
    f: ZipFileDataView,
    plain: Seq<u8>,
    streaming: bool,
)
    requires
        entry_stands(bytes, f, plain, streaming),
    ensures
        entry_stands(bytes + more, f, plain, streaming),
{
    let laid = written_entry(as_started(f), plain, streaming);
    let at = f.header_start as int;
    assert((bytes + more).subrange(at, at + laid.len()) =~= bytes.subrange(at, at + laid.len()));
}

/// Completing the open entry adds its plain text to what the writer holds.
pub proof fn lemma_settle_keeps_entries(v: WriterView, plains: Seq<Seq<u8>>)
    requires
        holds_entries(v, plains),
        settle(v) is Ok,
        settles_in_range(v),
    ensures
        holds_entries(settle(v)->Ok_0, settled_plains(v, plains)),
{
    match v.open {
        None => {},
        Some((d, plain)) => {
            let after = settle(v)->Ok_0;
            let all = plains.push(plain);
            let f = closed_entry(d, plain);
            let laid = written_entry(d, plain, v.streaming);
            assert(as_started(f) == d);
            assert(after.bytes.subrange(
                f.header_start as int,
                f.header_start + laid.len(),
            ) =~= laid);
            assert(entry_stands(after.bytes, f, plain, v.streaming));
            assert forall|i: int| 0 <= i < after.files.len() implies writer_made(
                #[trigger] after.files[i],
            ) && entry_stands(after.bytes, after.files[i], all[i], after.streaming) by {
                if i < v.files.len() {
                    assert(after.files[i] == v.files[i]);
                    lemma_entry_stands_on(v.bytes, laid, v.files[i], plains[i], v.streaming);
                }
            }
        },
    }
}

/// Starting an entry completes the one that is open and leaves the new one fresh.
pub proof fn lemma_start_keeps_entries(
    v: WriterView,
    plains: Seq<Seq<u8>>,
    name: Seq<char>,
    options: FileOptions,
)
    requires
        holds_entries(v, plains),
        start(v, name, options) is Ok,
        settles_in_range(v),
    ensures
        holds_entries(start(v, name, options)->Ok_0, settled_plains(v, plains)),
{
    lemma_settle_keeps_entries(v, plains);
    let s = settle(v)->Ok_0;
    let after = start(v, name, options)->Ok_0;
    assert(after.files == s.files);
    assert(after.bytes == s.bytes);
}

/// Writing to the open entry changes nothing in what the writer holds as complete.
pub proof fn lemma_write_keeps_entries(v: WriterView, plains: Seq<Seq<u8>>, buf: Seq<u8>)
    requires
        holds_entries(v, plains),
        written(v, buf) is Ok,
    ensures
        holds_entries(written(v, buf)->Ok_0, plains),
{
}

/// What was written is read back: the archive of a writer that holds the plain texts
/// `plains` is opened with as many entries, under the names and with the sizes and
/// checksums of what was written, and each entry is read as what the writer encoded,
/// which for a stored entry is the plain text itself. This holds for archives with and
/// without ZIP64 records, and so for entries beyond 4 GiB.
pub proof fn lemma_what_was_written_is_read_back(v: WriterView, plains: Seq<Seq<u8>>)
    requires
        holds_entries(v, plains),
        all_read_back(v.files),
        v.comment.len() <= 0xFFFF,
        v.files.len() <= usize::MAX,
        finished(v).len() <= u64::MAX,
        end_is_unmistakable(v),
    ensures
        open_archive(finished(v)) is Ok,
        open_archive(finished(v))->Ok_0.files.len() == plains.len(),
        open_archive(finished(v))->Ok_0.offset == 0,
        open_archive(finished(v))->Ok_0.comment == v.comment,
        forall|i: int|
            0 <= i < plains.len() ==> {
                let e = #[trigger] open_archive(finished(v))->Ok_0.files[i];
                let opening = entry_opening(finished(v), e, None);
                &&& e.file_name == v.files[i].file_name
                &&& e.compression_method == v.files[i].compression_method
                &&& e.uncompressed_size == plains[i].len()
                &&& e.crc32 == crc32(plains[i])
                &&& opening is Ready
                &&& opening->content == checked_content(
                    e.compression_method,
                    Ok(encoded(e.compression_method, v.files[i].compression_level, plains[i])->0),
                    crc32(plains[i]),
                    false,
                )
                &&& e.compression_method == CompressionMethod::Stored ==> opening->content == Ok::<
                    Seq<u8>,
                    Fault,
                >(plains[i])
            },
{
    lemma_written_archive_is_opened(v);
    let s = finished(v);
    let back = read_back_entries(v.files, v.bytes.len() as int);
    let behind = s.subrange(v.bytes.len() as int, s.len() as int);
    assert(s =~= v.bytes + behind);
    assert forall|i: int| 0 <= i < plains.len() implies ({
        let e = #[trigger] open_archive(finished(v))->Ok_0.files[i];
        let opening = entry_opening(finished(v), e, None);
        &&& e.file_name == v.files[i].file_name
        &&& e.compression_method == v.files[i].compression_method
        &&& e.uncompressed_size == plains[i].len()
        &&& e.crc32 == crc32(plains[i])
        &&& opening is Ready
        &&& opening->content == checked_content(
            e.compression_method,
            Ok(encoded(e.compression_method, v.files[i].compression_level, plains[i])->0),
            crc32(plains[i]),
            false,
        )
        &&& e.compression_method == CompressionMethod::Stored ==> opening->content == Ok::<
            Seq<u8>,
            Fault,
        >(plains[i])
    }) by {
        let f = v.files[i];
        assert(writer_made(f) && entry_stands(v.bytes, f, plains[i], v.streaming));
        assert(reads_back(f));
        lemma_entry_stands_on(v.bytes, behind, f, plains[i], v.streaming);
        let place = (v.bytes.len() + central_directory(v.files.take(i)).len()) as u64;
        assert(back[i] == as_read_back(f, 0, place));
        lemma_written_entry_is_read(s, f, plains[i], v.streaming, place);
    }
}

} // verus!
