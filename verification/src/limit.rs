//! What the readers over a source that delivers bytes piece by piece decide: how much
//! of a source belongs to an entry, which decoder an entry gets and what a bridge
//! between a blocking reader and a polling one does next.

use vstd::prelude::*;
use bytes::BytesMut;
use crate::compression::CompressionMethod;
use crate::crc32::Crc32Reader;
use crate::result::{Fault, ZipError, ZipResult};
use crate::types::ZipFileData;

verus! {

/// A source of which no more than a given number of bytes is read.
pub struct Limiter<S> {
    max_len: usize,
    internal_pos: usize,
    source_stream: S,
}

impl<S> Limiter<S> {
    #[verifier::type_invariant]
    spec fn within_limit(self) -> bool {
        self.internal_pos <= self.max_len
    }

    /// The number of bytes that may be read in all.
    pub closed spec fn limit(&self) -> usize {
        self.max_len
    }

    /// The number of bytes that were read.
    pub closed spec fn position(&self) -> usize {
        self.internal_pos
    }

    /// The source.
    pub closed spec fn source(&self) -> S {
        self.source_stream
    }

    /// Limits a source to `limit` bytes.
    pub fn take(source_stream: S, limit: usize) -> (r: Self)
        ensures
            r.limit() == limit,
            r.position() == 0,
            r.source() == source_stream,
    {
        Limiter { max_len: limit, internal_pos: 0, source_stream }
    }

    /// The number of bytes that may still be read.
    pub fn remaining_len(&self) -> (r: usize)
        ensures
            self.position() <= self.limit(),
            r == self.limit() - self.position(),
    {
        proof {
            use_type_invariant(self);
        }
        self.max_len - self.internal_pos
    }

    /// The number of bytes to ask the source for when `requested_length` are wanted:
    /// no more than may still be read.
    pub fn limit_length(&self, requested_length: usize) -> (r: usize)
        ensures
            self.position() <= self.limit(),
            r == (if requested_length <= self.limit() - self.position() {
                requested_length as int
            } else {
                self.limit() - self.position()
            }),
    {
        let remaining = self.remaining_len();
        if requested_length <= remaining {
            requested_length
        } else {
            remaining
        }
    }

    /// Takes note that the source delivered `len` bytes.
    pub fn push_cursor(&mut self, len: usize)
        requires
            old(self).position() + len <= old(self).limit(),
        ensures
            final(self).position() == old(self).position() + len,
            final(self).limit() == old(self).limit(),
            final(self).source() == old(self).source(),
    {
        self.internal_pos = self.internal_pos + len;
    }

    pub fn into_inner(self) -> (r: S)
        ensures
            r == self.source(),
    {
        self.source_stream
    }
}

/// A reader of an entry over a limited source.
pub trait ReaderWrapper<S>: Sized {
    /// Puts the reader for an entry on a limited source.
    fn construct(data: &ZipFileData, s: Limiter<S>) -> Self;

    /// Gives the limited source back.
    fn into_inner(self) -> Limiter<S>;
}

/// The reader of a stored entry: it checks the checksum of what the limited source
/// delivers.
pub struct StoredReader<S>(pub Crc32Reader<Limiter<S>>);

impl<S> ReaderWrapper<S> for StoredReader<S> {
    fn construct(data: &ZipFileData, s: Limiter<S>) -> (r: Self)
        ensures
            r.0.source() == s,
            r.0.stored() == data.crc32,
            !r.0.unchecked(),
            r.0.delivered() == Seq::<u8>::empty(),
    {
        StoredReader(Crc32Reader::new(s, data.crc32, false))
    }

    fn into_inner(self) -> (r: Limiter<S>)
        ensures
            r == self.0.source(),
    {
        self.0.into_inner()
    }
}

/// The decoders that a reader over a polled source can be made with.
#[derive(Clone, Copy, Debug, PartialEq, Eq, Structural)]
pub enum WrappedKind {
    Stored,
    Deflated,
    Bzip2,
}

/// The decoder that an entry gets over a polled source; the other compression methods
/// are refused.
pub fn wrapped_kind(method: CompressionMethod) -> (r: ZipResult<WrappedKind>)
    ensures
        match method {
            CompressionMethod::Stored => r is Ok && r->Ok_0 == WrappedKind::Stored,
            CompressionMethod::Deflated => r is Ok && r->Ok_0 == WrappedKind::Deflated,
            CompressionMethod::Bzip2 => r is Ok && r->Ok_0 == WrappedKind::Bzip2,
            _ => r is Err && r->Err_0@ == Fault::UnsupportedArchive(
                "Compression method not supported"@,
            ),
        },
{
    match method {
        CompressionMethod::Stored => Ok(WrappedKind::Stored),
        CompressionMethod::Deflated => Ok(WrappedKind::Deflated),
        CompressionMethod::Bzip2 => Ok(WrappedKind::Bzip2),
        _ => Err(ZipError::UnsupportedArchive("Compression method not supported")),
    }
}

/// `bytes::BytesMut`, a buffer of bytes that grows at its end and is taken from at
/// its start.
#[verifier::external_type_specification]
#[verifier::external_body]
pub struct ExBytesMut(BytesMut);

/// The bytes that a `bytes::BytesMut` holds.
pub uninterp spec fn ring_bytes(ring: BytesMut) -> Seq<u8>;

/// Makes an empty buffer with `BytesMut::new`.
#[verifier::external_body]
fn ring_new() -> (ring: BytesMut)
    ensures
        ring_bytes(ring) == Seq::<u8>::empty(),
{
    BytesMut::new()
}

/// The number of bytes in the buffer, from `BytesMut::len`.
#[verifier::external_body]
fn ring_len(ring: &BytesMut) -> (r: usize)
    ensures
        r == ring_bytes(*ring).len(),
{
    ring.len()
}

/// Takes the first `at` bytes out of the buffer with `BytesMut::split_to`, which
/// leaves the bytes from `at` on in the buffer and panics where `at` is beyond its
/// length.
#[verifier::external_body]
fn ring_split_to(ring: &mut BytesMut, at: usize) -> (r: Vec<u8>)
    requires
        at <= ring_bytes(*old(ring)).len(),
    ensures
        r@ == ring_bytes(*old(ring)).subrange(0, at as int),
        ring_bytes(*final(ring)) == ring_bytes(*old(ring)).skip(at as int),
{
    ring.split_to(at).to_vec()
}

/// Appends bytes to the buffer with `BytesMut::extend_from_slice`.
#[verifier::external_body]
fn ring_extend(ring: &mut BytesMut, bytes: &[u8])
    ensures
        ring_bytes(*final(ring)) == ring_bytes(*old(ring)) + bytes@,
{
    ring.extend_from_slice(bytes);
}

/// What the blocking reader behind a bridge has reported.
#[derive(Clone, Copy, Debug, PartialEq, Eq, Structural)]
pub enum Completion {
    /// Nothing yet: the reader has not reached its end.
    Pending,
    /// The reader reached its end.
    Finished,
    /// The reader failed.
    Failed,
}

/// What a poll of the bridge does.
#[derive(Debug)]
pub enum PollStep {
    /// These bytes are handed to the one who polls.
    Deliver(Vec<u8>),
    /// The stream is at its end: the poll is answered with no bytes.
    EndOfStream,
    /// The poll is answered with the error of the reader.
    Fail,
    /// A blocking read of this many bytes is started, and the poll stays pending.
    StartRead(usize),
}

/// What the worker does after a blocking read.
#[derive(Clone, Copy, Debug, PartialEq, Eq, Structural)]
pub enum WorkerStep {
    /// The reader is at its end, which is reported once.
    Complete,
    /// Bytes arrived: the one who polls is woken.
    Wake,
}

/// The buffer between a blocking reader, which a worker drives, and the one who polls
/// for its bytes.
pub struct ReadAdapter {
    buf: BytesMut,
}

impl ReadAdapter {
    /// The bytes that were read and not yet delivered.
    pub closed spec fn view(&self) -> Seq<u8> {
        ring_bytes(self.buf)
    }

    pub fn new() -> (r: Self)
        ensures
            r@ == Seq::<u8>::empty(),
    {
        ReadAdapter { buf: ring_new() }
    }

    /// Answers a poll for up to `want` bytes.
    ///
    /// Bytes that are there are delivered first, as many as are wanted. With none
    /// there, the poll ends the stream or fails as the reader has reported, or starts
    /// a blocking read of `want` bytes.
    pub fn poll_read(&mut self, want: usize, completion: Completion) -> (r: PollStep)
        requires
            want > 0,
        ensures
            old(self)@.len() > 0 ==> r is Deliver && r->Deliver_0@.len() > 0
                && r->Deliver_0@.len() <= want && old(self)@ == r->Deliver_0@ + final(self)@
                && (final(self)@.len() == 0 || r->Deliver_0@.len() == want),
            old(self)@.len() == 0 ==> final(self)@ == old(self)@ && (match completion {
                Completion::Pending => r is StartRead && r->StartRead_0 == want,
                Completion::Finished => r is EndOfStream,
                Completion::Failed => r is Fail,
            }),
    {
        let held = ring_len(&self.buf);
        if held > 0 {
            let len = if want < held {
                want
            } else {
                held
            };
            let ghost before = self@;
            let data = ring_split_to(&mut self.buf, len);
            assert(before =~= data@ + self@);
            return PollStep::Deliver(data);
        }
        match completion {
            Completion::Pending => PollStep::StartRead(want),
            Completion::Finished => PollStep::EndOfStream,
            Completion::Failed => PollStep::Fail,
        }
    }

    /// Takes what a blocking read delivered, and says what the worker does next.
    pub fn absorb(&mut self, bytes: &[u8]) -> (r: WorkerStep)
        ensures
            final(self)@ == old(self)@ + bytes@,
            r == (if bytes@.len() == 0 {
                WorkerStep::Complete
            } else {
                WorkerStep::Wake
            }),
    {
        if bytes.len() == 0 {
            assert(self@ + bytes@ =~= self@);
            WorkerStep::Complete
        } else {
            ring_extend(&mut self.buf, bytes);
            WorkerStep::Wake
        }
    }
}

} // verus!
