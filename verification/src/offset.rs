//! Archives that do not start at the first byte of their source: what opening and
//! reading give when other bytes stand before an archive.

use vstd::prelude::*;
use crate::codec::{lemma_at_suffix, u16_at, u32_at};
use crate::headers::parse_cdh;
use crate::read::{
    directory_counts, entry_at, entry_of_header, entry_opening, limited, local_data_start,
    open_archive, read_directory, zip64_locator, ArchiveView, EntryOpening,
};
use crate::records::{
    eocd_scan_floor, eocd_signature_at, find_eocd, first_zip64_signature, is_eocd_position,
    lemma_find_eocd_at, lemma_first_zip64_signature, lemma_first_zip64_signature_is_lowest,
    lemma_highest_eocd_signature, lemma_zip64_scan_in_range, zip64_signature_at,
    CentralDirectoryEndView,
};
use crate::result::Fault;
use crate::types::ZipFileDataView;

verus! {

/// The description of an entry whose headers stand `by` bytes further on.
pub open spec fn moved(e: ZipFileDataView, by: nat) -> ZipFileDataView {
    ZipFileDataView {
        header_start: (e.header_start + by) as u64,
        central_header_start: (e.central_header_start + by) as u64,
        ..e
    }
}

/// The descriptions of entries whose headers all stand `by` bytes further on.
pub open spec fn moved_entries(files: Seq<ZipFileDataView>, by: nat) -> Seq<ZipFileDataView> {
    Seq::new(files.len(), |i: int| moved(files[i], by))
}

/// The opening of an entry whose data stands `by` bytes further on.
pub open spec fn moved_opening(opening: EntryOpening, by: nat) -> EntryOpening {
    match opening {
        EntryOpening::Ready { data_start, content } => EntryOpening::Ready {
            data_start: (data_start + by) as u64,
            content,
        },
        other => other,
    }
}

/// Behind other bytes the end of central directory record is found as before, that
/// many bytes further on.
pub proof fn lemma_eocd_behind_junk(junk: Seq<u8>, a: Seq<u8>)
    requires
        find_eocd(a) is Ok,
        junk.len() + a.len() <= u64::MAX,
    ensures
        match find_eocd(a) {
            Ok(found) => find_eocd(junk + a) == Ok::<(CentralDirectoryEndView, u64), Fault>(
                (found.0, (found.1 + junk.len()) as u64),
            ),
            Err(_) => true,
        },
{
    let b = junk + a;
    let shift = junk.len() as int;
    let q = choose|q: int|
        eocd_scan_floor(a.len() as int) <= q <= a.len() - 22 && eocd_signature_at(
            a,
            q,
        );
    let p = lemma_highest_eocd_signature(a, q, a.len() - 22);
    lemma_find_eocd_at(a, p);
    lemma_at_suffix(b, shift);
    assert(b.subrange(shift, b.len() as int) =~= a);
    assert(u32_at(a, p) == u32_at(b, shift + p));
    assert forall|j: int| p + shift < j <= b.len() - 22 implies !eocd_signature_at(b, j) by {
        assert(u32_at(a, j - shift) == u32_at(b, shift + (j - shift)));
        assert(!eocd_signature_at(a, j - shift));
    }
    assert(is_eocd_position(b, p + shift));
    lemma_find_eocd_at(b, p + shift);
    assert(b.subrange(p + shift, b.len() as int) =~= a.subrange(p, a.len() as int));
}

/// Behind other bytes the central directory is read as before, with the headers of
/// every entry that many bytes further on.
pub proof fn lemma_directory_behind_junk(
    junk: Seq<u8>,
    a: Seq<u8>,
    pos: int,
    count: nat,
    archive_offset: u64,
)
    requires
        read_directory(a, pos, count, archive_offset) is Ok,
        junk.len() + a.len() <= u64::MAX,
        archive_offset + junk.len() <= u64::MAX,
        forall|i: int|
            0 <= i < read_directory(a, pos, count, archive_offset)->Ok_0.len() ==> (
            #[trigger] read_directory(a, pos, count, archive_offset)->Ok_0[i]).header_start
                + junk.len() <= u64::MAX,
    ensures
        read_directory(
            junk + a,
            pos + junk.len(),
            count,
            (archive_offset + junk.len()) as u64,
        ) == Ok::<Seq<ZipFileDataView>, Fault>(
            moved_entries(read_directory(a, pos, count, archive_offset)->Ok_0, junk.len()),
        ),
    decreases count,
{
    let b = junk + a;
    let shift = junk.len();
    let files = read_directory(a, pos, count, archive_offset)->Ok_0;
    let further = (archive_offset + shift) as u64;
    if count == 0 {
        assert(moved_entries(files, shift) =~= Seq::<ZipFileDataView>::empty());
    } else {
        let first = entry_at(a, pos, archive_offset)->Ok_0;
        let e = first.0;
        let next = first.1;
        let rest = read_directory(a, next, (count - 1) as nat, archive_offset)->Ok_0;
        assert(files == seq![e] + rest);
        assert(b.subrange(pos + shift, b.len() as int) =~= a.subrange(pos, a.len() as int));
        let h = parse_cdh(a.subrange(pos, a.len() as int))->Ok_0;
        assert(files[0] == e);
        assert(entry_of_header(h, further, (pos + shift) as u64) == Ok::<ZipFileDataView, Fault>(
            moved(e, shift),
        ));
        assert(entry_at(b, pos + shift, further) == Ok::<(ZipFileDataView, int), Fault>(
            (moved(e, shift), next + shift),
        ));
        assert forall|i: int| 0 <= i < rest.len() implies (#[trigger] rest[i]).header_start + shift
            <= u64::MAX by {
            assert(rest[i] == files[i + 1]);
        }
        lemma_directory_behind_junk(junk, a, next, (count - 1) as nat, archive_offset);
        assert(seq![moved(e, shift)] + moved_entries(rest, shift) =~= moved_entries(
            files,
            shift,
        ));
    }
}

/// Other bytes before an archive without ZIP64 records shift it: the archive opens as
/// before, with its offset and the headers of every entry further on by the number of
/// those bytes. The bytes before it must not make the 20 bytes before the end of
/// central directory record a ZIP64 locator, and no header may leave the range of 64
/// bits.
pub proof fn lemma_junk_before_an_archive_shifts_it(junk: Seq<u8>, a: Seq<u8>)
    requires
        open_archive(a) is Ok,
        junk.len() + a.len() <= u64::MAX,
        zip64_locator(junk + a, open_archive(a)->Ok_0.comment.len() as int) is None,
        forall|i: int|
            0 <= i < open_archive(a)->Ok_0.files.len() ==> (
            #[trigger] open_archive(a)->Ok_0.files[i]).header_start + junk.len() <= u64::MAX,
    ensures
        open_archive(junk + a) == Ok::<ArchiveView, Fault>(
            ArchiveView {
                files: moved_entries(open_archive(a)->Ok_0.files, junk.len()),
                offset: (open_archive(a)->Ok_0.offset + junk.len()) as u64,
                comment: open_archive(a)->Ok_0.comment,
            },
        ),
{
    let b = junk + a;
    let shift = junk.len();
    lemma_eocd_behind_junk(junk, a);
    let found = find_eocd(a)->Ok_0;
    let footer = found.0;
    let at = found.1;
    let comment_len = footer.zip_file_comment.len() as int;
    let before = a.len() - 42 - comment_len;
    if before >= 0 {
        assert(b.subrange(before + shift, before + shift + 20) =~= a.subrange(
            before,
            before + 20,
        ));
    }
    assert(zip64_locator(a, comment_len) is None);
    let counts = directory_counts(a, footer, at)->Ok_0;
    assert(at + 22 <= a.len()) by {
        let q = choose|q: int|
            eocd_scan_floor(a.len() as int) <= q <= a.len() - 22
                && eocd_signature_at(a, q);
        let p = lemma_highest_eocd_signature(a, q, a.len() - 22);
        lemma_find_eocd_at(a, p);
    }
    lemma_directory_behind_junk(junk, a, counts.1 as int, counts.2 as nat, counts.0);
}

/// In an archive with ZIP64 records the ZIP64 record is looked for from where the
/// locator says it stands. Behind other bytes it is found as many bytes further on,
/// where those that the search passes first do not hold the signature of the record.
pub open spec fn search_is_not_misled(junk: Seq<u8>, a: Seq<u8>, comment_len: int) -> bool {
    match zip64_locator(a, comment_len) {
        None => true,
        Some(locator) => forall|q: int|
            locator.end_of_central_directory_offset <= q < locator.end_of_central_directory_offset
                + junk.len() ==> !zip64_signature_at(junk + a, q),
    }
}

/// Other bytes before an archive with ZIP64 records shift it as they shift one
/// without: the archive opens as before, with its offset and the headers of every
/// entry further on by the number of those bytes. The search for the ZIP64 record must
/// not be misled by the bytes it passes first, and neither the central directory nor
/// a header may leave the range of 64 bits.
pub proof fn lemma_junk_before_a_zip64_archive_shifts_it(junk: Seq<u8>, a: Seq<u8>)
    requires
        open_archive(a) is Ok,
        junk.len() + a.len() <= u64::MAX,
        zip64_locator(a, open_archive(a)->Ok_0.comment.len() as int) is Some,
        search_is_not_misled(junk, a, open_archive(a)->Ok_0.comment.len() as int),
        directory_counts(a, find_eocd(a)->Ok_0.0, find_eocd(a)->Ok_0.1)->Ok_0.1 + junk.len()
            <= u64::MAX,
        forall|i: int|
            0 <= i < open_archive(a)->Ok_0.files.len() ==> (
            #[trigger] open_archive(a)->Ok_0.files[i]).header_start + junk.len() <= u64::MAX,
    ensures
        open_archive(junk + a) == Ok::<ArchiveView, Fault>(
            ArchiveView {
                files: moved_entries(open_archive(a)->Ok_0.files, junk.len()),
                offset: (open_archive(a)->Ok_0.offset + junk.len()) as u64,
                comment: open_archive(a)->Ok_0.comment,
            },
        ),
{
    let b = junk + a;
    let shift = junk.len() as int;
    lemma_eocd_behind_junk(junk, a);
    let found = find_eocd(a)->Ok_0;
    let footer = found.0;
    let at = found.1;
    let comment_len = footer.zip_file_comment.len() as int;
    let before = a.len() - 42 - comment_len;
    assert(b.subrange(before + shift, before + shift + 20) =~= a.subrange(before, before + 20));
    let locator = zip64_locator(a, comment_len)->0;
    assert(zip64_locator(b, comment_len) == Some(locator));
    assert(at + 22 <= a.len()) by {
        let q = choose|q: int|
            eocd_scan_floor(a.len() as int) <= q <= a.len() - 22 && eocd_signature_at(a, q);
        let p = lemma_highest_eocd_signature(a, q, a.len() - 22);
        lemma_find_eocd_at(a, p);
    }
    let nominal = locator.end_of_central_directory_offset as int;
    let upper = at - 60;
    lemma_zip64_scan_in_range(a, nominal, upper);
    lemma_first_zip64_signature_is_lowest(a, nominal, upper);
    let place = first_zip64_signature(a, nominal, upper)->0;
    lemma_at_suffix(b, shift);
    assert(b.subrange(shift, b.len() as int) =~= a);
    assert(u32_at(a, place) == u32_at(b, shift + place));
    assert forall|j: int| nominal <= j < place + shift implies !zip64_signature_at(b, j) by {
        if j >= nominal + shift {
            assert(!zip64_signature_at(a, j - shift));
            if j + 4 <= b.len() {
                assert(u32_at(a, j - shift) == u32_at(b, shift + (j - shift)));
            }
        }
    }
    lemma_first_zip64_signature(b, nominal, upper + shift, place + shift);
    lemma_zip64_scan_in_range(b, nominal, upper + shift);
    assert(b.subrange(place + shift, place + shift + 56) =~= a.subrange(place, place + 56));
    let counts = directory_counts(a, footer, at)->Ok_0;
    assert(directory_counts(b, footer, (at + shift) as u64) == Ok::<(u64, u64, usize), Fault>(
        ((counts.0 + shift) as u64, (counts.1 + shift) as u64, counts.2),
    ));
    lemma_directory_behind_junk(junk, a, counts.1 as int, counts.2 as nat, counts.0);
}

/// Other bytes before an archive change nothing in what its entries hold: an entry
/// whose headers stand further on by the number of those bytes is opened as before,
/// with its data as much further on, and read with the same result.
pub proof fn lemma_junk_keeps_the_content(
    junk: Seq<u8>,
    a: Seq<u8>,
    e: ZipFileDataView,
    password: Option<Seq<u8>>,
)
    requires
        junk.len() + a.len() <= u64::MAX,
        e.header_start + junk.len() <= u64::MAX,
        local_data_start(a, e.header_start) is Ok ==> local_data_start(a, e.header_start)->Ok_0
            + junk.len() <= u64::MAX,
    ensures
        entry_opening(junk + a, moved(e, junk.len()), password) == moved_opening(
            entry_opening(a, e, password),
            junk.len(),
        ),
{
    let b = junk + a;
    let shift = junk.len() as int;
    let head = e.header_start as int;
    lemma_at_suffix(b, shift);
    assert(b.subrange(shift, b.len() as int) =~= a);
    if head + 4 <= a.len() {
        assert(u32_at(a, head) == u32_at(b, shift + head));
    }
    if head + 30 <= a.len() {
        assert(u16_at(a, head + 26) == u16_at(b, shift + (head + 26)));
        assert(u16_at(a, head + 28) == u16_at(b, shift + (head + 28)));
    }
    if local_data_start(a, e.header_start) is Ok {
        let start = local_data_start(a, e.header_start)->Ok_0;
        assert(local_data_start(b, moved(e, junk.len()).header_start) == Ok::<u64, Fault>(
            (start + shift) as u64,
        ));
        assert(limited(b, start + shift, e.compressed_size as int) =~= limited(
            a,
            start as int,
            e.compressed_size as int,
        ));
    } else {
        assert(local_data_start(b, moved(e, junk.len()).header_start) == local_data_start(
            a,
            e.header_start,
        ));
    }
}

} // verus!
