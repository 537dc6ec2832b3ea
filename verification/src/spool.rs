//! Intermediate buffers of the pipelined extraction: small ones are kept in memory,
//! large ones in a backing file.

use vstd::prelude::*;

verus! {

/// Where a cursor is moved to.
#[derive(Clone, Copy, Debug, PartialEq, Eq, Structural)]
pub enum SeekTo {
    /// To this offset.
    Start(u64),
    /// To this distance from the end.
    End(i64),
    /// To this distance from where it is.
    Current(i64),
}

/// A buffer of a fixed length with a cursor, in memory or in a file.
///
/// For the buffer in a file this holds the path and the length only: reading, writing
/// and the cursor are the file's, and each operation answers `None` to say so.
#[derive(Debug)]
pub enum IntermediateFile {
    Immediate(Vec<u8>, usize),
    Paging(String, usize),
}

/// The offset that a cursor is moved to in a buffer of `len` bytes: the target where
/// it can be expressed, and the nearest offset that can be where not.
pub open spec fn seek_target(len: int, pos: int, to: SeekTo) -> int {
    let wanted = match to {
        SeekTo::Start(s) => s as int,
        SeekTo::End(d) => len + d,
        SeekTo::Current(d) => pos + d,
    };
    if wanted < 0 {
        0
    } else if wanted > usize::MAX {
        usize::MAX as int
    } else {
        wanted
    }
}

/// The number of bytes that an operation on `count` bytes moves at the offset `pos` of
/// a buffer of `len` bytes: what the buffer holds from there, up to `count`.
pub open spec fn transfer_len(len: int, pos: int, count: int) -> int {
    if pos >= len {
        0
    } else if count <= len - pos {
        count
    } else {
        len - pos
    }
}

impl IntermediateFile {
    /// The length of the buffer.
    pub open spec fn spec_len(&self) -> int {
        match self {
            IntermediateFile::Immediate(data, _) => data@.len() as int,
            IntermediateFile::Paging(_, len) => *len as int,
        }
    }

    /// The length of the buffer.
    pub fn len(&self) -> (r: usize)
        ensures
            r == self.spec_len(),
    {
        match self {
            IntermediateFile::Immediate(data, _) => data.len(),
            IntermediateFile::Paging(_, len) => *len,
        }
    }

    /// The offset of the cursor of a buffer in memory.
    pub fn tell(&self) -> (r: Option<u64>)
        ensures
            match self {
                IntermediateFile::Immediate(_, pos) => r == Some(*pos as u64),
                IntermediateFile::Paging(_, _) => r is None,
            },
    {
        match self {
            IntermediateFile::Immediate(_, pos) => Some(*pos as u64),
            IntermediateFile::Paging(_, _) => None,
        }
    }

    /// A buffer of `len` zero bytes in memory, with the cursor at its start.
    pub fn immediate(len: usize) -> (r: Self)
        ensures
            r matches IntermediateFile::Immediate(data, pos) && pos == 0 && data@.len() == len
                && forall|i: int| 0 <= i < len ==> data@[i] == 0,
    {
        let mut data: Vec<u8> = Vec::new();
        data.resize(len, 0u8);
        IntermediateFile::Immediate(data, 0)
    }

    /// The buffer of `len` bytes in the file at `path`.
    pub fn paging(path: String, len: usize) -> (r: Self)
        ensures
            r == IntermediateFile::Paging(path, len),
    {
        IntermediateFile::Paging(path, len)
    }

    /// A buffer in memory that holds a copy of `bytes`, with the cursor at its start.
    pub fn from_bytes(bytes: &[u8]) -> (r: Self)
        ensures
            r matches IntermediateFile::Immediate(data, pos) && pos == 0 && data@ == bytes@,
    {
        let data = crate::codec::copy_range(bytes, 0, bytes.len());
        assert(data@ =~= bytes@);
        IntermediateFile::Immediate(data, 0)
    }

    /// The path of the file to remove when the buffer is no longer needed, for a
    /// buffer that has one.
    pub fn backing_file(&self) -> (r: Option<&str>)
        ensures
            match self {
                IntermediateFile::Immediate(_, _) => r is None,
                IntermediateFile::Paging(path, _) => r is Some && r->0@ == path@,
            },
    {
        match self {
            IntermediateFile::Immediate(_, _) => None,
            IntermediateFile::Paging(path, _) => Some(path.as_str()),
        }
    }

    /// Reads up to `count` bytes at the cursor of a buffer in memory, and moves the
    /// cursor behind them.
    pub fn read(&mut self, count: usize) -> (r: Option<Vec<u8>>)
        ensures
            match *old(self) {
                IntermediateFile::Paging(_, _) => r is None && *final(self) == *old(self),
                IntermediateFile::Immediate(data, pos) => {
                    let n = transfer_len(data@.len() as int, pos as int, count as int);
                    &&& r is Some
                    &&& r->0@ == data@.subrange(
                        if pos <= data@.len() { pos as int } else { data@.len() as int },
                        if pos <= data@.len() { pos + n } else { data@.len() as int },
                    )
                    &&& *final(self) == IntermediateFile::Immediate(data, (pos + n) as usize)
                },
            },
    {
        match self {
            IntermediateFile::Paging(_, _) => None,
            IntermediateFile::Immediate(data, pos) => {
                let beg: usize = *pos;
                let full_len: usize = data.len();
                if beg >= full_len {
                    return Some(crate::codec::copy_range(data.as_slice(), full_len, full_len));
                }
                let cur_len: usize = if count <= full_len - beg {
                    count
                } else {
                    full_len - beg
                };
                let out = crate::codec::copy_range(data.as_slice(), beg, beg + cur_len);
                *pos = beg + cur_len;
                Some(out)
            },
        }
    }

    /// Writes the start of `buf` over the bytes at the cursor of a buffer in memory,
    /// as far as the buffer reaches, moves the cursor behind them and returns their
    /// number. The buffer keeps its length.
    pub fn write(&mut self, buf: &[u8]) -> (r: Option<usize>)
        ensures
            match *old(self) {
                IntermediateFile::Paging(_, _) => r is None && *final(self) == *old(self),
                IntermediateFile::Immediate(data, pos) => {
                    let n = transfer_len(data@.len() as int, pos as int, buf@.len() as int);
                    &&& r == Some(n as usize)
                    &&& *final(self) matches IntermediateFile::Immediate(after, at)
                    &&& at == pos + n
                    &&& after@.len() == data@.len()
                    &&& forall|i: int|
                        0 <= i < data@.len() ==> after@[i] == (if pos <= i < pos + n {
                            buf@[i - pos]
                        } else {
                            data@[i]
                        })
                },
            },
    {
        match self {
            IntermediateFile::Paging(_, _) => None,
            IntermediateFile::Immediate(data, pos) => {
                let beg: usize = *pos;
                let full_len: usize = data.len();
                if beg >= full_len {
                    return Some(0);
                }
                let cur_len: usize = if buf.len() <= full_len - beg {
                    buf.len()
                } else {
                    full_len - beg
                };
                let ghost before = data@;
                let mut i: usize = 0;
                while i < cur_len
                    invariant
                        i <= cur_len,
                        beg + cur_len <= full_len,
                        cur_len <= buf@.len(),
                        data@.len() == full_len,
                        before.len() == full_len,
                        forall|k: int|
                            0 <= k < full_len ==> data@[k] == (if beg <= k < beg + i {
                                buf@[k - beg]
                            } else {
                                before[k]
                            }),
                    decreases cur_len - i,
                {
                    data.set(beg + i, buf[i]);
                    i = i + 1;
                }
                *pos = beg + cur_len;
                Some(cur_len)
            },
        }
    }

    /// Moves the cursor of a buffer in memory, and returns where it then is.
    pub fn seek(&mut self, to: SeekTo) -> (r: Option<u64>)
        ensures
            match *old(self) {
                IntermediateFile::Paging(_, _) => r is None && *final(self) == *old(self),
                IntermediateFile::Immediate(data, pos) => {
                    let target = seek_target(data@.len() as int, pos as int, to);
                    &&& r == Some(target as u64)
                    &&& *final(self) == IntermediateFile::Immediate(data, target as usize)
                },
            },
    {
        match self {
            IntermediateFile::Paging(_, _) => None,
            IntermediateFile::Immediate(data, pos) => {
                let len: i128 = data.len() as i128;
                let wanted: i128 = match to {
                    SeekTo::Start(s) => s as i128,
                    SeekTo::End(d) => len + d as i128,
                    SeekTo::Current(d) => *pos as i128 + d as i128,
                };
                let target: usize = if wanted < 0 {
                    0
                } else if wanted > usize::MAX as i128 {
                    usize::MAX
                } else {
                    wanted as usize
                };
                *pos = target;
                Some(target as u64)
            },
        }
    }
}

} // verus!
