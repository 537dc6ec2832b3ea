//! The extra field of an entry: a list of records, each a 16-bit tag, a 16-bit length
//! and that many bytes. Two tags are acted on: the ZIP64 sizes and the AES parameters.

use vstd::prelude::*;
use crate::codec::{
    lemma_u16_at_encoding, lemma_u16_encoding_len, lemma_u64_at_encoding, lemma_u64_encoding_len,
    read_u16_le, read_u64_le, u16_at, u16_le_bytes, u64_at, u64_le_bytes,
};
use crate::compression::{method_of_code, CompressionMethod};
use crate::result::{truncated, Fault, ZipError};
use crate::types::{AesMode, AesVendorVersion};

verus! {

/// The tag of the ZIP64 extended information record.
pub const ZIP64_EXTRA_TAG: u16 = 0x0001;

/// The tag of the AES record.
pub const AES_EXTRA_TAG: u16 = 0x9901;

/// The vendor identifier of the AES record: the letters A and E.
pub const AES_VENDOR_ID: u16 = 0x4541;

/// What the records of an extra field can change in an entry's description.
#[derive(Clone, Copy, Debug)]
pub struct ExtraFields {
    pub uncompressed_size: u64,
    pub compressed_size: u64,
    pub header_start: u64,
    pub large_file: bool,
    pub aes_mode: Option<(AesMode, AesVendorVersion)>,
    pub compression_method: CompressionMethod,
}

/// How a walk over an extra field ends: the fields as they stand, and what stopped
/// the walk if it did not reach the end.
pub struct ExtraWalk {
    pub fields: ExtraFields,
    pub fault: Option<Fault>,
}

/// A ZIP64 record, whose bytes start at `body`. Each of the three fields that holds
/// 0xFFFFFFFF takes the next eight bytes, in the order uncompressed size, compressed
/// size, offset of the local header, and marks the entry as a large file. The result
/// gives the number of bytes taken too.
pub open spec fn zip64_record(extra: Seq<u8>, body: int, f: ExtraFields) -> (ExtraWalk, int) {
    if f.uncompressed_size == 0xFFFF_FFFF && body + 8 > extra.len() {
        (ExtraWalk { fields: ExtraFields { large_file: true, ..f }, fault: Some(Fault::Io) }, 0)
    } else {
        let f1 = if f.uncompressed_size == 0xFFFF_FFFF {
            ExtraFields { large_file: true, uncompressed_size: u64_at(extra, body), ..f }
        } else {
            f
        };
        let c1: int = if f.uncompressed_size == 0xFFFF_FFFF {
            8
        } else {
            0
        };
        if f1.compressed_size == 0xFFFF_FFFF && body + c1 + 8 > extra.len() {
            (
                ExtraWalk {
                    fields: ExtraFields { large_file: true, ..f1 },
                    fault: Some(Fault::Io),
                },
                c1,
            )
        } else {
            let f2 = if f1.compressed_size == 0xFFFF_FFFF {
                ExtraFields {
                    large_file: true,
                    compressed_size: u64_at(extra, body + c1),
                    ..f1
                }
            } else {
                f1
            };
            let c2: int = if f1.compressed_size == 0xFFFF_FFFF {
                c1 + 8
            } else {
                c1
            };
            if f2.header_start == 0xFFFF_FFFF && body + c2 + 8 > extra.len() {
                (
                    ExtraWalk {
                        fields: ExtraFields { large_file: true, ..f2 },
                        fault: Some(Fault::Io),
                    },
                    c2,
                )
            } else if f2.header_start == 0xFFFF_FFFF {
                (
                    ExtraWalk {
                        fields: ExtraFields {
                            large_file: true,
                            header_start: u64_at(extra, body + c2),
                            ..f2
                        },
                        fault: None,
                    },
                    c2 + 8,
                )
            } else {
                (ExtraWalk { fields: f2, fault: None }, c2)
            }
        }
    }
}

/// The AES strength that a code stands for.
pub open spec fn aes_mode_of_code(code: u8) -> Option<AesMode> {
    if code == 1 {
        Some(AesMode::Aes128)
    } else if code == 2 {
        Some(AesMode::Aes192)
    } else if code == 3 {
        Some(AesMode::Aes256)
    } else {
        None
    }
}

/// The AES vendor version that a code stands for.
pub open spec fn aes_version_of_code(code: u16) -> Option<AesVendorVersion> {
    if code == 1 {
        Some(AesVendorVersion::Ae1)
    } else if code == 2 {
        Some(AesVendorVersion::Ae2)
    } else {
        None
    }
}

/// An AES record of `len` bytes, which start at `body`: vendor version, vendor
/// identifier, strength, and the compression method that the entry really uses.
pub open spec fn aes_record(extra: Seq<u8>, body: int, len: int, f: ExtraFields) -> ExtraWalk {
    if len != 7 {
        ExtraWalk {
            fields: f,
            fault: Some(
                Fault::UnsupportedArchive("AES extra data field has an unsupported length"@),
            ),
        }
    } else if body + 7 > extra.len() {
        ExtraWalk { fields: f, fault: Some(Fault::Io) }
    } else if u16_at(extra, body + 2) != AES_VENDOR_ID {
        ExtraWalk { fields: f, fault: Some(Fault::InvalidArchive("Invalid AES vendor"@)) }
    } else if aes_version_of_code(u16_at(extra, body)) is None {
        ExtraWalk { fields: f, fault: Some(Fault::InvalidArchive("Invalid AES vendor version"@)) }
    } else if aes_mode_of_code(extra[body + 4]) is None {
        ExtraWalk {
            fields: f,
            fault: Some(Fault::InvalidArchive("Invalid AES encryption strength"@)),
        }
    } else {
        ExtraWalk {
            fields: ExtraFields {
                aes_mode: Some(
                    (
                        aes_mode_of_code(extra[body + 4])->0,
                        aes_version_of_code(u16_at(extra, body))->0,
                    ),
                ),
                compression_method: method_of_code(u16_at(extra, body + 5)),
                ..f
            },
            fault: None,
        }
    }
}

/// The walk over the records of an extra field from `pos` on. A record with another
/// tag is passed over. After a ZIP64 record the walk goes on behind the record, or
/// behind the bytes that were taken where they are more than the record holds.
pub open spec fn walk_extra(extra: Seq<u8>, pos: int, f: ExtraFields) -> ExtraWalk
    decreases
            (if pos < extra.len() {
                extra.len() - pos
            } else {
                0
            }),
{
    if pos < 0 || pos >= extra.len() {
        ExtraWalk { fields: f, fault: None }
    } else if pos + 4 > extra.len() {
        ExtraWalk { fields: f, fault: Some(Fault::Io) }
    } else {
        let kind = u16_at(extra, pos);
        let len = u16_at(extra, pos + 2) as int;
        let body = pos + 4;
        if kind == ZIP64_EXTRA_TAG {
            let (w, taken) = zip64_record(extra, body, f);
            if w.fault is Some {
                w
            } else if taken > len {
                walk_extra(extra, body + taken, w.fields)
            } else {
                walk_extra(extra, body + len, w.fields)
            }
        } else if kind == AES_EXTRA_TAG {
            let w = aes_record(extra, body, len, f);
            if w.fault is Some {
                w
            } else {
                walk_extra(extra, body + 7, w.fields)
            }
        } else {
            walk_extra(extra, body + len, f)
        }
    }
}

/// Reads the eight bytes at `body + taken` if the extra field holds them.
fn take_u64(extra: &[u8], body: usize, taken: usize) -> (r: Option<u64>)
    requires
        body <= extra@.len(),
        taken <= 16,
    ensures
        match r {
            Some(v) => body + taken + 8 <= extra@.len() && v == u64_at(
                extra@,
                body as int + taken as int,
            ),
            None => body + taken + 8 > extra@.len(),
        },
{
    if extra.len() - body < taken + 8 {
        None
    } else {
        Some(read_u64_le(extra, body + taken))
    }
}

/// Reads a ZIP64 record whose bytes start at `body`.
fn read_zip64_record(extra: &[u8], body: usize, f: ExtraFields) -> (r: (
    ExtraFields,
    Option<ZipError>,
    usize,
))
    requires
        body <= extra@.len(),
    ensures
        r.0 == zip64_record(extra@, body as int, f).0.fields,
        r.2 == zip64_record(extra@, body as int, f).1,
        r.2 <= 24,
        match r.1 {
            None => zip64_record(extra@, body as int, f).0.fault is None,
            Some(e) => zip64_record(extra@, body as int, f).0.fault == Some(e@),
        },
{
    let mut cur = f;
    let mut taken: usize = 0;
    if cur.uncompressed_size == 0xFFFF_FFFF {
        cur.large_file = true;
        match take_u64(extra, body, taken) {
            None => {
                return (cur, Some(truncated()), taken);
            },
            Some(v) => {
                cur.uncompressed_size = v;
                taken = taken + 8;
            },
        }
    }
    if cur.compressed_size == 0xFFFF_FFFF {
        cur.large_file = true;
        match take_u64(extra, body, taken) {
            None => {
                return (cur, Some(truncated()), taken);
            },
            Some(v) => {
                cur.compressed_size = v;
                taken = taken + 8;
            },
        }
    }
    if cur.header_start == 0xFFFF_FFFF {
        cur.large_file = true;
        match take_u64(extra, body, taken) {
            None => {
                return (cur, Some(truncated()), taken);
            },
            Some(v) => {
                cur.header_start = v;
                taken = taken + 8;
            },
        }
    }
    (cur, None, taken)
}

/// Reads an AES record of `len` bytes, which start at `body`.
fn read_aes_record(extra: &[u8], body: usize, len: u16, f: ExtraFields) -> (r: (
    ExtraFields,
    Option<ZipError>,
))
    requires
        body <= extra@.len(),
    ensures
        r.0 == aes_record(extra@, body as int, len as int, f).fields,
        match r.1 {
            None => aes_record(extra@, body as int, len as int, f).fault is None,
            Some(e) => aes_record(extra@, body as int, len as int, f).fault == Some(e@),
        },
{
    if len != 7 {
        return (
            f,
            Some(ZipError::UnsupportedArchive("AES extra data field has an unsupported length")),
        );
    }
    if extra.len() - body < 7 {
        return (f, Some(truncated()));
    }
    let vendor_version: u16 = read_u16_le(extra, body);
    let vendor_id: u16 = read_u16_le(extra, body + 2);
    let aes_mode: u8 = extra[body + 4];
    let compression_method: u16 = read_u16_le(extra, body + 5);
    if vendor_id != AES_VENDOR_ID {
        return (f, Some(ZipError::InvalidArchive("Invalid AES vendor")));
    }
    let vendor_version = match vendor_version {
        0x0001 => AesVendorVersion::Ae1,
        0x0002 => AesVendorVersion::Ae2,
        _ => {
            return (f, Some(ZipError::InvalidArchive("Invalid AES vendor version")));
        },
    };
    let mode = match aes_mode {
        0x01 => AesMode::Aes128,
        0x02 => AesMode::Aes192,
        0x03 => AesMode::Aes256,
        _ => {
            return (f, Some(ZipError::InvalidArchive("Invalid AES encryption strength")));
        },
    };
    let mut cur = f;
    cur.aes_mode = Some((mode, vendor_version));
    cur.compression_method = CompressionMethod::from_u16(compression_method);
    (cur, None)
}

/// Walks over the records of an extra field and returns the fields as the records
/// leave them, with what stopped the walk if it did not reach the end. A record that
/// is cut short stops the walk with an I/O error; what was changed before stays
/// changed.
pub fn walk_extra_field(extra: &[u8], init: ExtraFields) -> (r: (ExtraFields, Option<ZipError>))
    ensures
        r.0 == walk_extra(extra@, 0, init).fields,
        match r.1 {
            None => walk_extra(extra@, 0, init).fault is None,
            Some(e) => walk_extra(extra@, 0, init).fault == Some(e@),
        },
{
    let total: usize = extra.len();
    let mut cur = init;
    let mut pos: usize = 0;
    while pos < total
        invariant
            total == extra@.len(),
            pos <= total,
            walk_extra(extra@, 0, init) == walk_extra(extra@, pos as int, cur),
        decreases total - pos,
    {
        if total - pos < 4 {
            return (cur, Some(truncated()));
        }
        let kind: u16 = read_u16_le(extra, pos);
        let len: u16 = read_u16_le(extra, pos + 2);
        let body: usize = pos + 4;
        let mut skip: usize = len as usize;
        if kind == ZIP64_EXTRA_TAG {
            let (next, fault, taken) = read_zip64_record(extra, body, cur);
            match fault {
                Some(e) => {
                    return (next, Some(e));
                },
                None => {},
            }
            cur = next;
            if taken > skip {
                skip = taken;
            }
        } else if kind == AES_EXTRA_TAG {
            let (next, fault) = read_aes_record(extra, body, len, cur);
            match fault {
                Some(e) => {
                    return (next, Some(e));
                },
                None => {},
            }
            cur = next;
            skip = 7;
        }
        proof {
            let done = ExtraWalk { fields: cur, fault: None };
            assert(walk_extra(extra@, total as int, cur) == done);
            assert(body + skip >= total ==> walk_extra(extra@, body + skip, cur) == done);
        }
        if skip >= total - body {
            pos = total;
        } else {
            pos = body + skip;
        }
    }
    (cur, None)
}

/// The eight bytes of a value for a field that holds 0xFFFFFFFF, and nothing for
/// another field.
pub open spec fn zip64_value(field: u64, value: u64) -> Seq<u8> {
    if field == 0xFFFF_FFFF {
        u64_le_bytes(value)
    } else {
        Seq::empty()
    }
}

/// A ZIP64 record that holds one value for each of the three fields of `f` that holds
/// 0xFFFFFFFF, in the order uncompressed size, compressed size, offset of the local
/// header.
pub open spec fn zip64_record_for(
    f: ExtraFields,
    uncompressed_size: u64,
    compressed_size: u64,
    header_start: u64,
) -> Seq<u8> {
    let payload = zip64_value(f.uncompressed_size, uncompressed_size) + zip64_value(
        f.compressed_size,
        compressed_size,
    ) + zip64_value(f.header_start, header_start);
    u16_le_bytes(ZIP64_EXTRA_TAG) + u16_le_bytes(payload.len() as u16) + payload
}

/// The field after a ZIP64 record: the value of the record where the field held
/// 0xFFFFFFFF, and the field as it was where not.
pub open spec fn replaced(field: u64, value: u64) -> u64 {
    if field == 0xFFFF_FFFF {
        value
    } else {
        field
    }
}

/// An extra field of one ZIP64 record with a value for each field that holds
/// 0xFFFFFFFF replaces exactly those fields, leaves the others as they are, and marks
/// the entry as a large file exactly when it replaces one, unless the entry is marked
/// already.
pub proof fn lemma_zip64_record_replaces_saturated_fields(
    f: ExtraFields,
    uncompressed_size: u64,
    compressed_size: u64,
    header_start: u64,
)
    ensures
        walk_extra(zip64_record_for(f, uncompressed_size, compressed_size, header_start), 0, f)
            == (ExtraWalk {
            fields: ExtraFields {
                uncompressed_size: replaced(f.uncompressed_size, uncompressed_size),
                compressed_size: replaced(f.compressed_size, compressed_size),
                header_start: replaced(f.header_start, header_start),
                large_file: f.large_file || f.uncompressed_size == 0xFFFF_FFFF
                    || f.compressed_size == 0xFFFF_FFFF || f.header_start == 0xFFFF_FFFF,
                ..f
            },
            fault: None,
        }),
{
    let extra = zip64_record_for(f, uncompressed_size, compressed_size, header_start);
    let a = zip64_value(f.uncompressed_size, uncompressed_size);
    let b = zip64_value(f.compressed_size, compressed_size);
    let c = zip64_value(f.header_start, header_start);
    lemma_u64_encoding_len(uncompressed_size);
    lemma_u64_encoding_len(compressed_size);
    lemma_u64_encoding_len(header_start);
    let n: int = a.len() as int + b.len() as int + c.len() as int;
    let tag = u16_le_bytes(ZIP64_EXTRA_TAG);
    let len = u16_le_bytes(n as u16);
    lemma_u16_encoding_len(ZIP64_EXTRA_TAG);
    lemma_u16_encoding_len(n as u16);
    let empty = Seq::<u8>::empty();
    assert(extra =~= empty + tag + (len + a + b + c));
    lemma_u16_at_encoding(empty, ZIP64_EXTRA_TAG, len + a + b + c);
    assert(extra =~= tag + len + (a + b + c));
    lemma_u16_at_encoding(tag, n as u16, a + b + c);
    let head = tag + len;
    if a.len() > 0 {
        assert(extra =~= head + u64_le_bytes(uncompressed_size) + (b + c));
        lemma_u64_at_encoding(head, uncompressed_size, b + c);
    }
    if b.len() > 0 {
        assert(extra =~= (head + a) + u64_le_bytes(compressed_size) + c);
        lemma_u64_at_encoding(head + a, compressed_size, c);
    }
    if c.len() > 0 {
        assert(extra =~= (head + a + b) + u64_le_bytes(header_start) + empty);
        lemma_u64_at_encoding(head + a + b, header_start, empty);
    }
    let (w, taken) = zip64_record(extra, 4, f);
    assert(taken == n);
    assert(w.fault is None);
    assert(extra.len() == 4 + n);
    assert(walk_extra(extra, 4 + n, w.fields) == (ExtraWalk { fields: w.fields, fault: None }));
}

} // verus!
