//! Possible ZIP compression methods.

use vstd::prelude::*;

verus! {

/// Identifies the storage format used to compress a file within a ZIP archive.
#[derive(Debug, Clone, Copy, PartialEq, Eq, Structural)]
pub enum CompressionMethod {
    /// Store the file as is.
    Stored,
    /// LZW-based shrinking.
    Shrunk,
    /// Reducing with compression factor 1.
    Reduce1,
    /// Reducing with compression factor 2.
    Reduce2,
    /// Reducing with compression factor 3.
    Reduce3,
    /// Reducing with compression factor 4.
    Reduce4,
    /// Imploding.
    Implode,
    /// Compress the file using Deflate.
    Deflated,
    /// Enhanced Deflate with a 64 KiB window.
    Deflate64,
    /// Compress the file using BZIP2.
    Bzip2,
    /// LZMA.
    Lzma,
    /// Compress the file using ZStandard.
    Zstd,
    /// MP3 audio.
    Mp3,
    /// XZ.
    Xz,
    /// JPEG variant.
    Jpeg,
    /// WavPack audio.
    WavPack,
    /// PPMd version I, revision 1.
    Ppmd,
    /// Marker of an AES-encrypted entry; the real method is in the AES extra field.
    Aes,
    /// A method this library has no name for.
    Unsupported(u16),
}

/// The method that a 16-bit code of the file format stands for.
pub open spec fn method_of_code(val: u16) -> CompressionMethod {
    if val == 0 {
        CompressionMethod::Stored
    } else if val == 1 {
        CompressionMethod::Shrunk
    } else if val == 2 {
        CompressionMethod::Reduce1
    } else if val == 3 {
        CompressionMethod::Reduce2
    } else if val == 4 {
        CompressionMethod::Reduce3
    } else if val == 5 {
        CompressionMethod::Reduce4
    } else if val == 6 {
        CompressionMethod::Implode
    } else if val == 8 {
        CompressionMethod::Deflated
    } else if val == 9 {
        CompressionMethod::Deflate64
    } else if val == 12 {
        CompressionMethod::Bzip2
    } else if val == 14 {
        CompressionMethod::Lzma
    } else if val == 93 {
        CompressionMethod::Zstd
    } else if val == 94 {
        CompressionMethod::Mp3
    } else if val == 95 {
        CompressionMethod::Xz
    } else if val == 96 {
        CompressionMethod::Jpeg
    } else if val == 97 {
        CompressionMethod::WavPack
    } else if val == 98 {
        CompressionMethod::Ppmd
    } else if val == 99 {
        CompressionMethod::Aes
    } else {
        CompressionMethod::Unsupported(val)
    }
}

/// The 16-bit code that the file format uses for a method.
pub open spec fn code_of_method(m: CompressionMethod) -> u16 {
    match m {
        CompressionMethod::Stored => 0,
        CompressionMethod::Shrunk => 1,
        CompressionMethod::Reduce1 => 2,
        CompressionMethod::Reduce2 => 3,
        CompressionMethod::Reduce3 => 4,
        CompressionMethod::Reduce4 => 5,
        CompressionMethod::Implode => 6,
        CompressionMethod::Deflated => 8,
        CompressionMethod::Deflate64 => 9,
        CompressionMethod::Bzip2 => 12,
        CompressionMethod::Lzma => 14,
        CompressionMethod::Zstd => 93,
        CompressionMethod::Mp3 => 94,
        CompressionMethod::Xz => 95,
        CompressionMethod::Jpeg => 96,
        CompressionMethod::WavPack => 97,
        CompressionMethod::Ppmd => 98,
        CompressionMethod::Aes => 99,
        CompressionMethod::Unsupported(v) => v,
    }
}

/// True for the methods that this library can decode.
pub open spec fn method_supported(m: CompressionMethod) -> bool {
    m == CompressionMethod::Stored || m == CompressionMethod::Deflated || m
        == CompressionMethod::Bzip2 || m == CompressionMethod::Zstd
}

impl CompressionMethod {
    /// Converts a u16 to its corresponding CompressionMethod.
    pub fn from_u16(val: u16) -> (m: CompressionMethod)
        ensures
            m == method_of_code(val),
    {
        match val {
            0 => CompressionMethod::Stored,
            1 => CompressionMethod::Shrunk,
            2 => CompressionMethod::Reduce1,
            3 => CompressionMethod::Reduce2,
            4 => CompressionMethod::Reduce3,
            5 => CompressionMethod::Reduce4,
            6 => CompressionMethod::Implode,
            8 => CompressionMethod::Deflated,
            9 => CompressionMethod::Deflate64,
            12 => CompressionMethod::Bzip2,
            14 => CompressionMethod::Lzma,
            93 => CompressionMethod::Zstd,
            94 => CompressionMethod::Mp3,
            95 => CompressionMethod::Xz,
            96 => CompressionMethod::Jpeg,
            97 => CompressionMethod::WavPack,
            98 => CompressionMethod::Ppmd,
            99 => CompressionMethod::Aes,
            v => CompressionMethod::Unsupported(v),
        }
    }

    /// Converts a CompressionMethod to a u16.
    pub fn to_u16(self) -> (val: u16)
        ensures
            val == code_of_method(self),
    {
        match self {
            CompressionMethod::Stored => 0,
            CompressionMethod::Shrunk => 1,
            CompressionMethod::Reduce1 => 2,
            CompressionMethod::Reduce2 => 3,
            CompressionMethod::Reduce3 => 4,
            CompressionMethod::Reduce4 => 5,
            CompressionMethod::Implode => 6,
            CompressionMethod::Deflated => 8,
            CompressionMethod::Deflate64 => 9,
            CompressionMethod::Bzip2 => 12,
            CompressionMethod::Lzma => 14,
            CompressionMethod::Zstd => 93,
            CompressionMethod::Mp3 => 94,
            CompressionMethod::Xz => 95,
            CompressionMethod::Jpeg => 96,
            CompressionMethod::WavPack => 97,
            CompressionMethod::Ppmd => 98,
            CompressionMethod::Aes => 99,
            CompressionMethod::Unsupported(v) => v,
        }
    }

    /// True for the methods that this library can decode.
    pub fn is_supported(self) -> (r: bool)
        ensures
            r == method_supported(self),
    {
        match self {
            CompressionMethod::Stored => true,
            CompressionMethod::Deflated => true,
            CompressionMethod::Bzip2 => true,
            CompressionMethod::Zstd => true,
            _ => false,
        }
    }
}

/// Every 16-bit code survives the conversion to a method and back.
pub proof fn lemma_code_round_trip(val: u16)
    ensures
        code_of_method(method_of_code(val)) == val,
{
}

} // verus!
