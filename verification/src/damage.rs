//! What the reader makes of an archive in which bytes before its central directory
//! were changed: it opens as before, and a changed byte in the payload of a stored
//! entry is found by the check at the end of the entry.

use vstd::prelude::*;
use crate::codec::lemma_u32_at_same_bytes;
use crate::compression::CompressionMethod;
use crate::crc32::crc32;
use crate::read::{
    directory_counts, entry_at, entry_opening, lemma_changed_payload_byte_is_detected, limited,
    open_archive, read_directory, zip64_locator, EntryOpening,
};
use crate::records::{
    eocd_scan_floor, eocd_signature_at, find_eocd, first_zip64_signature, is_eocd_position,
    lemma_find_eocd_at, lemma_first_zip64_signature_is_lowest, lemma_highest_eocd_signature,
    zip64_chunk_len, zip64_scan, zip64_signature_at, Zip64Scan,
};
use crate::result::Fault;

verus! {

/// True when two byte sequences of one length hold the same bytes from `from` on.
pub open spec fn same_from(s: Seq<u8>, t: Seq<u8>, from: int) -> bool {
    &&& s.len() == t.len()
    &&& 0 <= from
    &&& forall|j: int| from <= j < s.len() ==> s[j] == t[j]
}

/// True when the opening of an archive reads nothing before `from`: there or behind
/// it stand the end of central directory record, the 20 bytes in which a ZIP64
/// locator is looked for, the place that a locator points to, and the central
/// directory.
pub open spec fn opening_reads_from(s: Seq<u8>, from: int) -> bool {
    let found = find_eocd(s)->Ok_0;
    let comment_len = found.0.zip_file_comment.len() as int;
    let counts = directory_counts(s, found.0, found.1)->Ok_0;
    &&& from <= found.1
    &&& s.len() - 42 - comment_len < 0 || from <= s.len() - 42 - comment_len
    &&& zip64_locator(s, comment_len) is Some ==> from <= zip64_locator(
        s,
        comment_len,
    )->0.end_of_central_directory_offset
    &&& from <= counts.1
}

/// The search for the end of central directory record reads nothing before the
/// record it finds.
proof fn lemma_eocd_search_reads_the_tail(s: Seq<u8>, t: Seq<u8>, from: int)
    requires
        same_from(s, t, from),
        s.len() <= u64::MAX,
        find_eocd(s) is Ok,
        from <= find_eocd(s)->Ok_0.1,
    ensures
        find_eocd(t) == find_eocd(s),
{
    let q = choose|q: int|
        eocd_scan_floor(s.len() as int) <= q <= s.len() - 22 && eocd_signature_at(s, q);
    let p = lemma_highest_eocd_signature(s, q, s.len() - 22);
    lemma_find_eocd_at(s, p);
    lemma_u32_at_same_bytes(s, t, p);
    assert forall|j: int| p < j <= t.len() - 22 implies !eocd_signature_at(t, j) by {
        assert(!eocd_signature_at(s, j));
        lemma_u32_at_same_bytes(s, t, j);
    }
    assert(is_eocd_position(t, p));
    lemma_find_eocd_at(t, p);
    assert(t.subrange(p, t.len() as int) =~= s.subrange(p, s.len() as int));
}

/// The search for the signature of the ZIP64 record reads nothing before the range
/// it goes through.
proof fn lemma_signature_search_reads_the_tail(
    s: Seq<u8>,
    t: Seq<u8>,
    from: int,
    low: int,
    high: int,
)
    requires
        same_from(s, t, from),
        from <= low,
    ensures
        first_zip64_signature(t, low, high) == first_zip64_signature(s, low, high),
    decreases high - low + 1,
{
    if low <= high {
        if low + 4 <= s.len() {
            lemma_u32_at_same_bytes(s, t, low);
        }
        assert(zip64_signature_at(t, low) == zip64_signature_at(s, low));
        lemma_signature_search_reads_the_tail(s, t, from, low + 1, high);
    }
}

/// The search for the ZIP64 record reads nothing before where it starts.
proof fn lemma_zip64_search_reads_the_tail(s: Seq<u8>, t: Seq<u8>, from: int, pos: int, upper: int)
    requires
        same_from(s, t, from),
        from <= pos,
    ensures
        zip64_scan(t, pos, upper) == zip64_scan(s, pos, upper),
    decreases upper - pos + 1,
{
    if pos <= upper {
        let n = zip64_chunk_len(pos, upper);
        lemma_signature_search_reads_the_tail(s, t, from, pos, pos + n - 56);
        if pos + n <= s.len() && first_zip64_signature(s, pos, pos + n - 56) is None {
            lemma_zip64_search_reads_the_tail(s, t, from, pos + n - 55, upper);
        }
    }
}

/// The central directory is read from where it starts on.
proof fn lemma_directory_reads_the_tail(
    s: Seq<u8>,
    t: Seq<u8>,
    from: int,
    pos: int,
    count: nat,
    archive_offset: u64,
)
    requires
        same_from(s, t, from),
        from <= pos,
    ensures
        read_directory(t, pos, count, archive_offset) == read_directory(
            s,
            pos,
            count,
            archive_offset,
        ),
    decreases count,
{
    if count > 0 {
        if pos <= s.len() {
            assert(t.subrange(pos, t.len() as int) =~= s.subrange(pos, s.len() as int));
        }
        assert(entry_at(t, pos, archive_offset) == entry_at(s, pos, archive_offset));
        match entry_at(s, pos, archive_offset) {
            Ok(first) => {
                lemma_directory_reads_the_tail(
                    s,
                    t,
                    from,
                    first.1,
                    (count - 1) as nat,
                    archive_offset,
                );
            },
            Err(_) => {},
        }
    }
}

/// What a search for the signature finds stands behind where the search starts, in
/// the source.
proof fn lemma_signature_found_behind_start(s: Seq<u8>, low: int, high: int)
    requires
        first_zip64_signature(s, low, high) is Some,
    ensures
        low <= first_zip64_signature(s, low, high)->0,
        first_zip64_signature(s, low, high)->0 + 4 <= s.len(),
    decreases high - low + 1,
{
    if low <= high && !zip64_signature_at(s, low) {
        lemma_signature_found_behind_start(s, low + 1, high);
    }
}

/// What the search for the ZIP64 record finds stands behind where the search starts.
proof fn lemma_found_behind_start(s: Seq<u8>, pos: int, upper: int)
    requires
        zip64_scan(s, pos, upper) is Found,
    ensures
        pos <= zip64_scan(s, pos, upper)->Found_0,
    decreases upper - pos + 1,
{
    if pos <= upper {
        let n = zip64_chunk_len(pos, upper);
        if first_zip64_signature(s, pos, pos + n - 56) is Some {
            lemma_signature_found_behind_start(s, pos, pos + n - 56);
        } else {
            lemma_found_behind_start(s, pos + n - 55, upper);
        }
    }
}

/// What the search for the ZIP64 record finds stands in a piece that was read whole:
/// the source holds the 56 bytes of the record.
proof fn lemma_found_in_source(s: Seq<u8>, pos: int, upper: int)
    requires
        zip64_scan(s, pos, upper) is Found,
    ensures
        zip64_scan(s, pos, upper)->Found_0 + 56 <= s.len(),
    decreases upper - pos + 1,
{
    if pos <= upper {
        let n = zip64_chunk_len(pos, upper);
        if first_zip64_signature(s, pos, pos + n - 56) is Some {
            lemma_first_zip64_signature_is_lowest(s, pos, pos + n - 56);
        } else {
            lemma_found_in_source(s, pos + n - 55, upper);
        }
    }
}

/// An archive opens by its tail: bytes that stand before everything that the opening
/// reads can be changed, and the archive opens as before.
pub proof fn lemma_opening_reads_the_tail(s: Seq<u8>, t: Seq<u8>, from: int)
    requires
        same_from(s, t, from),
        s.len() <= u64::MAX,
        open_archive(s) is Ok,
        opening_reads_from(s, from),
    ensures
        open_archive(t) == open_archive(s),
{
    lemma_eocd_search_reads_the_tail(s, t, from);
    let found = find_eocd(s)->Ok_0;
    let footer = found.0;
    let comment_len = footer.zip_file_comment.len() as int;
    let before = s.len() - 42 - comment_len;
    if before >= 0 {
        assert(t.subrange(before, before + 20) =~= s.subrange(before, before + 20));
    }
    assert(zip64_locator(t, comment_len) == zip64_locator(s, comment_len));
    match zip64_locator(s, comment_len) {
        Some(locator) => {
            let nominal = locator.end_of_central_directory_offset as int;
            let upper = found.1 - 60;
            lemma_zip64_search_reads_the_tail(s, t, from, nominal, upper);
            match zip64_scan(s, nominal, upper) {
                Zip64Scan::Found(place) => {
                    assert(nominal <= place) by {
                        lemma_found_behind_start(s, nominal, upper);
                    }
                    assert(t.subrange(place, place + 56) =~= s.subrange(place, place + 56)) by {
                        lemma_found_in_source(s, nominal, upper);
                    }
                },
                _ => {},
            }
        },
        None => {},
    }
    assert(directory_counts(t, footer, found.1) == directory_counts(s, footer, found.1));
    let counts = directory_counts(s, footer, found.1)->Ok_0;
    lemma_directory_reads_the_tail(s, t, from, counts.1 as int, counts.2 as nat, counts.0);
}

/// A changed byte in the payload of a stored entry that is not encrypted leaves the
/// archive as it opens, and is found when the entry is read: reading ends in a
/// checksum error, with the stored checksum as the one expected and that of the
/// changed payload as the actual one. The payload stands before everything that the
/// opening reads, as it does in an archive whose central directory follows its
/// entries.
pub proof fn lemma_changed_payload_fails_the_check(s: Seq<u8>, i: int, at: int, byte: u8)
    requires
        s.len() <= u64::MAX,
        open_archive(s) is Ok,
        0 <= i < open_archive(s)->Ok_0.files.len(),
        open_archive(s)->Ok_0.files[i].compression_method == CompressionMethod::Stored,
        !open_archive(s)->Ok_0.files[i].encrypted,
        open_archive(s)->Ok_0.files[i].aes_mode is None,
        entry_opening(s, open_archive(s)->Ok_0.files[i], None) is Ready,
        entry_opening(s, open_archive(s)->Ok_0.files[i], None)->content is Ok,
        entry_opening(s, open_archive(s)->Ok_0.files[i], None)->data_start <= at < entry_opening(
            s,
            open_archive(s)->Ok_0.files[i],
            None,
        )->data_start + open_archive(s)->Ok_0.files[i].compressed_size,
        at < s.len(),
        byte != s[at],
        opening_reads_from(s, at + 1),
    ensures
        open_archive(s.update(at, byte)) == open_archive(s),
        entry_opening(s.update(at, byte), open_archive(s)->Ok_0.files[i], None) == (
        EntryOpening::Ready {
            data_start: entry_opening(s, open_archive(s)->Ok_0.files[i], None)->data_start,
            content: Err(
                Fault::Crc32Mismatch {
                    expected: open_archive(s)->Ok_0.files[i].crc32,
                    actual: crc32(
                        limited(
                            s.update(at, byte),
                            entry_opening(s, open_archive(s)->Ok_0.files[i], None)->data_start as int,
                            open_archive(s)->Ok_0.files[i].compressed_size as int,
                        ),
                    ),
                },
            ),
        }),
{
    let e = open_archive(s)->Ok_0.files[i];
    lemma_opening_reads_the_tail(s, s.update(at, byte), at + 1);
    lemma_changed_payload_byte_is_detected(s, e, at, byte);
}

} // verus!
